//! The filter engine: which entries are suppressed, by category or by link.

use vstd::prelude::*;
use vstd::string::*;
use crate::config::RssConfig;
use crate::entry::RawEntry;
use crate::fields::field_value;
use crate::fields::get_field_value;
use crate::text::same_text;

verus! {

/// Whether a text is a pattern that the regular-expression engine accepts.
pub uninterp spec fn pattern_valid(pattern: Seq<char>) -> bool;

/// Whether a valid pattern matches anywhere in a text.
pub uninterp spec fn pattern_found(pattern: Seq<char>, text: Seq<char>) -> bool;

/// `regex::Regex::new` on the pattern and, where that succeeds,
/// `Regex::is_match` on the text. The first fails on a pattern that is
/// invalid or whose program would exceed the default size limit; the second
/// tells whether the pattern matches anywhere in the text. Both depend on
/// their arguments alone; the contract names the two results and claims no
/// more.
#[verifier::external_body]
pub(crate) fn pattern_match(pattern: &str, text: &str) -> (r: Option<bool>)
    ensures
        r == (if pattern_valid(pattern@) {
            Some(pattern_found(pattern@, text@))
        } else {
            None
        }),
{
    match regex::Regex::new(pattern) {
        Ok(re) => Some(re.is_match(text)),
        Err(_) => None,
    }
}

/// Whether one filter lets a link through: it must be a valid pattern and
/// match the link. A filter that is no valid pattern lets nothing through.
pub open spec fn filter_admits(filter: Seq<char>, link: Seq<char>) -> bool {
    pattern_valid(filter) && pattern_found(filter, link)
}

/// Whether some filter of a list admits a link.
pub open spec fn some_filter_admits(filters: Seq<String>, link: Seq<char>) -> bool {
    exists|i: int| 0 <= i < filters.len() && filter_admits((#[trigger] filters[i])@, link)
}

/// The link rule. Without filters every entry is included; with filters an
/// entry without link is excluded, and one with a link is included exactly
/// when some filter admits the link.
pub open spec fn link_included(link: Option<Seq<char>>, filters: Option<Seq<String>>) -> bool {
    match filters {
        None => true,
        Some(fs) => match link {
            None => false,
            Some(l) => some_filter_admits(fs, l),
        },
    }
}

/// The patterns of an optional list of filters.
pub open spec fn filter_texts(filters: Option<Vec<String>>) -> Option<Seq<String>> {
    match filters {
        Some(fs) => Some(fs@),
        None => None,
    }
}

/// What the outcome of matching one filter means for the link: only a
/// pattern that compiled and matched admits it.
pub fn filter_verdict(outcome: Option<bool>) -> (r: bool)
    ensures
        r == (outcome == Some(true)),
{
    match outcome {
        Some(found) => found,
        None => false,
    }
}

/// Decides by the link rule whether an entry is included.
pub fn should_include_by_link(link: Option<&String>, link_filters: Option<&Vec<String>>) -> (r: bool)
    ensures
        r == link_included(
            match link {
                Some(l) => Some(l@),
                None => None,
            },
            match link_filters {
                Some(fs) => Some(fs@),
                None => None,
            },
        ),
{
    match link_filters {
        None => true,
        Some(filters) => match link {
            None => false,
            Some(link_url) => {
                let mut i: usize = 0;
                while i < filters.len()
                    invariant
                        link == Some(link_url),
                        link_filters == Some(filters),
                        i <= filters@.len(),
                        forall|k: int| 0 <= k < i ==> !filter_admits((#[trigger] filters@[k])@, link_url@),
                    decreases filters@.len() - i,
                {
                    if filter_verdict(pattern_match(filters[i].as_str(), link_url.as_str())) {
                        assert(filter_admits(filters@[i as int]@, link_url@));
                        return true;
                    }
                    i += 1;
                }
                false
            },
        },
    }
}

/// Whether a category occurs among the filtered ones.
pub open spec fn category_listed(category: Seq<char>, filters: Seq<String>) -> bool {
    exists|j: int| 0 <= j < filters.len() && (#[trigger] filters[j])@ == category
}

/// The category rule: filters are configured and one of the entry's
/// categories is among them.
pub open spec fn category_suppressed(categories: Seq<String>, filters: Option<Vec<String>>) -> bool {
    match filters {
        None => false,
        Some(fs) => exists|i: int|
            0 <= i < categories.len() && category_listed((#[trigger] categories[i])@, fs@),
    }
}

fn listed(category: &str, filters: &Vec<String>) -> (r: bool)
    ensures
        r == category_listed(category@, filters@),
{
    let mut j: usize = 0;
    while j < filters.len()
        invariant
            j <= filters@.len(),
            forall|k: int| 0 <= k < j ==> (#[trigger] filters@[k])@ != category@,
        decreases filters@.len() - j,
    {
        if same_text(filters[j].as_str(), category) {
            return true;
        }
        j += 1;
    }
    false
}

/// Decides by the category rule whether an entry is suppressed.
pub fn suppressed_by_category(categories: &Vec<String>, filters: &Option<Vec<String>>) -> (r: bool)
    ensures
        r == category_suppressed(categories@, *filters),
{
    match filters {
        None => false,
        Some(fs) => {
            let mut i: usize = 0;
            while i < categories.len()
                invariant
                    *filters == Some(*fs),
                    i <= categories@.len(),
                    forall|k: int| 0 <= k < i ==> !category_listed((#[trigger] categories@[k])@, fs@),
                decreases categories@.len() - i,
            {
                if listed(categories[i].as_str(), fs) {
                    assert(category_listed(categories@[i as int]@, fs@));
                    return true;
                }
                i += 1;
            }
            false
        },
    }
}

/// Whether an entry is suppressed under a feed's configuration: by the
/// category rule, or because the link rule does not include its link.
pub open spec fn suppressed(item: RawEntry, config: RssConfig) -> bool {
    category_suppressed(item.categories@, config.category_filter) || !link_included(
        field_value(item, config.setup, "link"@),
        filter_texts(config.link_filter),
    )
}

/// Decides whether an entry is suppressed: remembered as handled, but never
/// published.
pub fn should_suppress(item: &RawEntry, config: &RssConfig) -> (r: bool)
    ensures
        r == suppressed(*item, *config),
{
    if suppressed_by_category(&item.categories, &config.category_filter) {
        true
    } else {
        let link = get_field_value(item, config, "link");
        !should_include_by_link(link.as_ref(), config.link_filter.as_ref())
    }
}

} // verus!
