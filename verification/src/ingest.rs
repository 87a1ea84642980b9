//! The ingestion loop of one feed: which entries of a fetched feed are
//! skipped, which are suppressed, and which are handed out for publishing,
//! oldest first. Publishing itself is the caller's work: a run hands out one
//! post at a time and is told how publishing went before it goes on.

use vstd::prelude::*;
use vstd::string::*;
use crate::config::RssConfig;
use crate::entry::RawEntry;
use crate::fields::entry_identity;
use crate::fields::field_value;
use crate::fields::get_field_value;
use crate::fields::identity;
use crate::filter::should_suppress;
use crate::filter::suppressed;
use crate::render::build_content;
use crate::render::content_text;
use crate::render::shown_title;
use crate::storage::key_bytes;
use crate::storage::Storage;
use crate::storage::StorageError;
use crate::text::parse_number;
use crate::text::parsed_number;

verus! {

/// A post to be created in the destination channel.
#[derive(Debug, Clone)]
pub struct ForumPost {
    pub channel_id: u64,
    pub tag_id: u64,
    pub title: String,
    pub content: String,
}

/// What is wrong with a feed's configuration.
#[derive(Debug, Clone, Copy, PartialEq, Eq, Structural)]
pub enum ConfigError {
    /// The channel identifier is no number.
    Channel,
    /// The tag identifier is no number.
    Tag,
}

/// Why the run of a feed ended early.
#[derive(Debug)]
pub enum FeedError {
    Storage(StorageError),
    Config(ConfigError),
}

/// What happened to the post that a run handed out last.
#[derive(Debug, Clone, Copy, PartialEq, Eq, Structural)]
pub enum Event {
    /// Nothing was handed out yet.
    Start,
    /// The post was published.
    Published,
    /// Publishing the post failed.
    PublishFailed,
}

/// What is done with an entry.
#[derive(Debug, Clone, Copy, PartialEq, Eq, Structural)]
pub enum PlanKind {
    /// It has no identity and is passed over.
    NoIdentity,
    /// The ledger has a record of it and it is passed over.
    AlreadyProcessed,
    /// A filter suppresses it: it is recorded and not published.
    Suppress,
    /// It would be published, but the configuration names no valid
    /// destination.
    Misconfigured,
    /// It is published.
    Publish,
}

/// The plan for an entry, with what carrying it out needs.
#[derive(Debug, Clone)]
pub enum EntryPlan {
    NoIdentity,
    AlreadyProcessed,
    Suppress(String),
    Misconfigured(ConfigError),
    Publish(ForumPost),
}

/// The key of an entry's record.
pub open spec fn entry_key(name: Seq<char>, config: RssConfig, item: RawEntry) -> Seq<u8> {
    key_bytes(name, identity(item, config.setup))
}

/// What is wrong with a configuration, if anything: the channel is looked
/// at before the tag.
pub open spec fn config_fault(config: RssConfig) -> Option<ConfigError> {
    if parsed_number(config.channel@) is None {
        Some(ConfigError::Channel)
    } else if parsed_number(config.tag@) is None {
        Some(ConfigError::Tag)
    } else {
        None
    }
}

/// What is done with an entry of the feed `name`, given the records that
/// the ledger holds.
pub open spec fn plan_kind(name: Seq<char>, config: RssConfig, item: RawEntry, ledger: Map<Seq<u8>, Seq<u8>>) -> PlanKind {
    if identity(item, config.setup).len() == 0 {
        PlanKind::NoIdentity
    } else if ledger.dom().contains(entry_key(name, config, item)) {
        PlanKind::AlreadyProcessed
    } else if suppressed(item, config) {
        PlanKind::Suppress
    } else if config_fault(config) is Some {
        PlanKind::Misconfigured
    } else {
        PlanKind::Publish
    }
}

/// Whether `post` is the post for an entry under a valid configuration.
pub open spec fn is_post_of(post: ForumPost, config: RssConfig, item: RawEntry, now: i64) -> bool {
    &&& Some(post.channel_id) == parsed_number(config.channel@)
    &&& Some(post.tag_id) == parsed_number(config.tag@)
    &&& post.title@ == shown_title(field_value(item, config.setup, "title"@))
    &&& post.content@ == content_text(config, item, now)
}

/// Whether an executable plan is the plan for an entry.
pub open spec fn is_plan_of(
    plan: EntryPlan,
    name: Seq<char>,
    config: RssConfig,
    item: RawEntry,
    ledger: Map<Seq<u8>, Seq<u8>>,
    now: i64,
) -> bool {
    match plan {
        EntryPlan::NoIdentity => plan_kind(name, config, item, ledger) == PlanKind::NoIdentity,
        EntryPlan::AlreadyProcessed => plan_kind(name, config, item, ledger)
            == PlanKind::AlreadyProcessed,
        EntryPlan::Suppress(id) => plan_kind(name, config, item, ledger) == PlanKind::Suppress && id@
            == identity(item, config.setup),
        EntryPlan::Misconfigured(e) => plan_kind(name, config, item, ledger) == PlanKind::Misconfigured
            && Some(e) == config_fault(config),
        EntryPlan::Publish(post) => plan_kind(name, config, item, ledger) == PlanKind::Publish
            && is_post_of(post, config, item, now),
    }
}

/// Decides what is done with one entry of the feed `name`. Only the ledger
/// can fail here. `now` is the time shown in a post for an entry without
/// time of publication.
pub fn plan_entry(name: &str, config: &RssConfig, item: &RawEntry, storage: &Storage, now: i64) -> (r:
    Result<EntryPlan, StorageError>)
    ensures
        match r {
            Ok(plan) => is_plan_of(plan, name@, *config, *item, storage@, now),
            Err(e) => e is Backend && identity(*item, config.setup).len() > 0,
        },
{
    let item_id = entry_identity(item, config);
    if item_id.as_str().is_empty() {
        return Ok(EntryPlan::NoIdentity);
    }
    let processed = match storage.is_processed(name, item_id.as_str()) {
        Ok(found) => found,
        Err(e) => {
            return Err(e);
        },
    };
    if processed {
        return Ok(EntryPlan::AlreadyProcessed);
    }
    if should_suppress(item, config) {
        return Ok(EntryPlan::Suppress(item_id));
    }
    let content = build_content(config, item, now);
    let channel_id = match parse_number(config.channel.as_str()) {
        Some(n) => n,
        None => {
            return Ok(EntryPlan::Misconfigured(ConfigError::Channel));
        },
    };
    let title = match get_field_value(item, config, "title") {
        Some(t) => t,
        None => String::from_str("Untitled"),
    };
    let tag_id = match parse_number(config.tag.as_str()) {
        Some(n) => n,
        None => {
            return Ok(EntryPlan::Misconfigured(ConfigError::Tag));
        },
    };
    Ok(EntryPlan::Publish(ForumPost { channel_id, tag_id, title, content }))
}

/// The entries of a feed in the order in which they are handled: feeds list
/// their entries newest first, and they are handled oldest first.
pub fn order_oldest_first(fetched: Vec<RawEntry>) -> (r: Vec<RawEntry>)
    ensures
        r@ == fetched@.reverse(),
{
    let mut rest = fetched;
    let mut out: Vec<RawEntry> = Vec::new();
    while rest.len() > 0
        invariant
            rest@.len() <= fetched@.len(),
            rest@ == fetched@.subrange(0, rest@.len() as int),
            out@ == fetched@.subrange(rest@.len() as int, fetched@.len() as int).reverse(),
        decreases rest@.len(),
    {
        let ghost k = rest@.len() as int;
        match rest.pop() {
            Some(e) => {
                out.push(e);
            },
            None => {},
        }
        assert(rest@ =~= fetched@.subrange(0, k - 1));
        assert(out@ =~= fetched@.subrange(k - 1, fetched@.len() as int).reverse());
    }
    assert(fetched@.subrange(0, fetched@.len() as int) =~= fetched@);
    out
}

/// The ledger with a record for `key`.
pub open spec fn with_record(ledger: Map<Seq<u8>, Seq<u8>>, key: Seq<u8>) -> Map<Seq<u8>, Seq<u8>> {
    ledger.insert(key, Seq::empty())
}

/// Handling the entries from position `from` on, up to the first that is
/// published or that meets an invalid configuration: the position of that
/// entry, or the number of entries where there is none, and the ledger as it
/// is then. Entries without identity or with a record are passed over; a
/// suppressed entry gets its record.
pub open spec fn scan(
    name: Seq<char>,
    config: RssConfig,
    entries: Seq<RawEntry>,
    from: int,
    ledger: Map<Seq<u8>, Seq<u8>>,
) -> (int, Map<Seq<u8>, Seq<u8>>)
    decreases entries.len() - from,
{
    if from < 0 || from >= entries.len() {
        (entries.len() as int, ledger)
    } else {
        match plan_kind(name, config, entries[from], ledger) {
            PlanKind::NoIdentity => scan(name, config, entries, from + 1, ledger),
            PlanKind::AlreadyProcessed => scan(name, config, entries, from + 1, ledger),
            PlanKind::Suppress => scan(
                name,
                config,
                entries,
                from + 1,
                with_record(ledger, entry_key(name, config, entries[from])),
            ),
            PlanKind::Misconfigured => (from, ledger),
            PlanKind::Publish => (from, ledger),
        }
    }
}

/// The run of one feed through the entries of one fetch.
pub struct FeedRun {
    /// The name of the feed.
    pub name: String,
    /// The entries, oldest first.
    pub entries: Vec<RawEntry>,
    /// The entries before this position are dealt with.
    pub cursor: usize,
    /// Whether the entry at `cursor` was handed out for publishing and the
    /// outcome is still to come.
    pub awaiting: bool,
}

impl FeedRun {
    /// Whether an entry is handed out and its outcome awaited.
    pub open spec fn pending(&self) -> bool {
        self.awaiting && self.cursor < self.entries@.len()
    }

    /// The position at which the run goes on once the outcome of the entry
    /// that was handed out is known.
    pub open spec fn resume_at(&self) -> int {
        if self.pending() {
            self.cursor + 1
        } else {
            self.cursor as int
        }
    }

    /// The ledger once the outcome of the entry that was handed out is
    /// noted: a published entry gets its record, one whose publishing failed
    /// gets none.
    pub open spec fn noted(&self, config: RssConfig, event: Event, ledger: Map<Seq<u8>, Seq<u8>>) -> Map<
        Seq<u8>,
        Seq<u8>,
    > {
        if self.pending() && event == Event::Published {
            with_record(ledger, entry_key(self.name@, config, self.entries@[self.cursor as int]))
        } else {
            ledger
        }
    }

    /// Whether going on needs the ledger: the entry that was handed out was
    /// published and is to be recorded, or an entry that is still to come has
    /// an identity to look up.
    pub open spec fn needs_ledger(&self, config: RssConfig, event: Event) -> bool {
        ||| self.pending() && event == Event::Published
        ||| exists|i: int|
            self.resume_at() <= i < self.entries@.len() && identity(
                #[trigger] self.entries@[i],
                config.setup,
            ).len() > 0
    }

    /// Whether the run is over.
    pub open spec fn over(&self) -> bool {
        !self.awaiting && self.cursor >= self.entries@.len()
    }

    /// Begins the run of the feed `name` on the entries as they were
    /// fetched, newest first.
    pub fn begin(name: String, fetched: Vec<RawEntry>) -> (run: FeedRun)
        ensures
            run.name == name,
            run.entries@ == fetched@.reverse(),
            run.cursor == 0,
            !run.awaiting,
    {
        FeedRun { name, entries: order_oldest_first(fetched), cursor: 0, awaiting: false }
    }

    fn abandon(&mut self)
        ensures
            final(self).name == old(self).name,
            final(self).entries == old(self).entries,
            final(self).over(),
    {
        self.cursor = self.entries.len();
        self.awaiting = false;
    }

    /// Notes how publishing the entry that was handed out went, and goes on
    /// to the next entry to publish. Returns the post for that entry, or
    /// `None` when all entries are dealt with. A fault of the ledger or of
    /// the configuration ends the run; the ledger can only fail where the
    /// run needs it.
    pub fn advance(&mut self, event: Event, config: &RssConfig, storage: &mut Storage, now: i64) -> (r:
        Result<Option<ForumPost>, FeedError>)
        ensures
            final(self).name == old(self).name,
            final(self).entries == old(self).entries,
            ({
                let (stop, ledger) = scan(
                    old(self).name@,
                    *config,
                    old(self).entries@,
                    old(self).resume_at(),
                    old(self).noted(*config, event, old(storage)@),
                );
                let len = old(self).entries@.len();
                match r {
                    Ok(Some(post)) => {
                        &&& stop < len
                        &&& plan_kind(old(self).name@, *config, old(self).entries@[stop], ledger)
                            == PlanKind::Publish
                        &&& is_post_of(post, *config, old(self).entries@[stop], now)
                        &&& final(self).cursor == stop
                        &&& final(self).awaiting
                        &&& final(storage)@ == ledger
                    },
                    Ok(None) => stop == len && final(storage)@ == ledger && final(self).over(),
                    Err(FeedError::Config(e)) => {
                        &&& stop < len
                        &&& plan_kind(old(self).name@, *config, old(self).entries@[stop], ledger)
                            == PlanKind::Misconfigured
                        &&& Some(e) == config_fault(*config)
                        &&& final(storage)@ == ledger
                        &&& final(self).over()
                    },
                    Err(FeedError::Storage(e)) => {
                        &&& e is Backend
                        &&& final(self).over()
                        &&& old(self).needs_ledger(*config, event)
                    },
                }
            }),
    {
        let ghost start_ledger = self.noted(*config, event, storage@);
        let ghost start = self.resume_at();
        if self.awaiting && self.cursor < self.entries.len() {
            if event == Event::Published {
                let item_id = entry_identity(&self.entries[self.cursor], config);
                match storage.mark_processed(self.name.as_str(), item_id.as_str()) {
                    Ok(_) => {},
                    Err(e) => {
                        self.abandon();
                        return Err(FeedError::Storage(e));
                    },
                }
            }
            self.cursor = self.cursor + 1;
        }
        self.awaiting = false;
        while self.cursor < self.entries.len()
            invariant
                self.name == old(self).name,
                self.entries == old(self).entries,
                !self.awaiting,
                start <= self.cursor,
                start == old(self).resume_at(),
                start_ledger == old(self).noted(*config, event, old(storage)@),
                scan(self.name@, *config, self.entries@, self.cursor as int, storage@) == scan(
                    old(self).name@,
                    *config,
                    old(self).entries@,
                    start,
                    start_ledger,
                ),
            decreases self.entries@.len() - self.cursor,
        {
            let ghost at = self.cursor as int;
            let plan = match plan_entry(self.name.as_str(), config, &self.entries[self.cursor], storage, now) {
                Ok(plan) => plan,
                Err(e) => {
                    assert(identity(old(self).entries@[at], config.setup).len() > 0);
                    self.abandon();
                    return Err(FeedError::Storage(e));
                },
            };
            match plan {
                EntryPlan::NoIdentity => {},
                EntryPlan::AlreadyProcessed => {},
                EntryPlan::Suppress(item_id) => {
                    match storage.mark_processed(self.name.as_str(), item_id.as_str()) {
                        Ok(_) => {},
                        Err(e) => {
                            assert(identity(old(self).entries@[at], config.setup).len() > 0);
                            self.abandon();
                            return Err(FeedError::Storage(e));
                        },
                    }
                },
                EntryPlan::Misconfigured(e) => {
                    self.abandon();
                    return Err(FeedError::Config(e));
                },
                EntryPlan::Publish(post) => {
                    self.awaiting = true;
                    return Ok(Some(post));
                },
            }
            self.cursor = self.cursor + 1;
        }
        Ok(None)
    }
}

} // verus!
