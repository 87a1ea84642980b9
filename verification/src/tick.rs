//! One tick of a feed as a whole, and what holds of it: the entries of a
//! fetch are handled oldest first, each post that is handed out is published
//! or fails, and the ledger keeps a record of what was handled.
//!
//! A tick is what comes of calling `FeedRun::advance` until the run is over.

use vstd::prelude::*;
use crate::config::RssConfig;
use crate::entry::RawEntry;
use crate::fields::identity;
use crate::filter::suppressed;
use crate::ingest::config_fault;
use crate::ingest::entry_key;
use crate::ingest::plan_kind;
use crate::ingest::scan;
use crate::ingest::Event;
use crate::ingest::FeedRun;
use crate::ingest::with_record;
use crate::ingest::PlanKind;
use crate::storage::key_bytes;
use crate::storage::ledger_key;
use crate::text::lemma_encode_injective;

verus! {

/// Whether publishing the entry at position `i` succeeds. `outcomes` holds
/// one outcome for each position; a position beyond its end fails.
pub open spec fn publish_succeeds(outcomes: Seq<bool>, i: int) -> bool {
    0 <= i < outcomes.len() && outcomes[i]
}

/// The ledger after the entry at position `i` was handled: a suppressed
/// entry and a published one get their record, every other entry leaves the
/// ledger as it is.
pub open spec fn ledger_after(
    name: Seq<char>,
    config: RssConfig,
    entries: Seq<RawEntry>,
    i: int,
    ledger: Map<Seq<u8>, Seq<u8>>,
    outcomes: Seq<bool>,
) -> Map<Seq<u8>, Seq<u8>> {
    match plan_kind(name, config, entries[i], ledger) {
        PlanKind::Suppress => with_record(ledger, entry_key(name, config, entries[i])),
        PlanKind::Publish => if publish_succeeds(outcomes, i) {
            with_record(ledger, entry_key(name, config, entries[i]))
        } else {
            ledger
        },
        _ => ledger,
    }
}

/// A tick over the entries from position `from` on, oldest first: the
/// positions of the entries that are handed out for publishing, in the order
/// in which they are handed out, and the ledger at the end. An invalid
/// configuration ends the tick at the first entry that would be published.
pub open spec fn tick(
    name: Seq<char>,
    config: RssConfig,
    entries: Seq<RawEntry>,
    from: int,
    ledger: Map<Seq<u8>, Seq<u8>>,
    outcomes: Seq<bool>,
) -> (Seq<int>, Map<Seq<u8>, Seq<u8>>)
    decreases entries.len() - from,
{
    if from < 0 || from >= entries.len() {
        (Seq::empty(), ledger)
    } else {
        let kind = plan_kind(name, config, entries[from], ledger);
        if kind == PlanKind::Misconfigured {
            (Seq::empty(), ledger)
        } else {
            let rest = tick(
                name,
                config,
                entries,
                from + 1,
                ledger_after(name, config, entries, from, ledger, outcomes),
                outcomes,
            );
            if kind == PlanKind::Publish {
                (seq![from] + rest.0, rest.1)
            } else {
                rest
            }
        }
    }
}

/// Whether no entry from position `from` on is new: each is without
/// identity or has its record.
pub open spec fn nothing_new(
    name: Seq<char>,
    config: RssConfig,
    entries: Seq<RawEntry>,
    from: int,
    ledger: Map<Seq<u8>, Seq<u8>>,
) -> bool {
    forall|i: int|
        from <= i < entries.len() ==> identity((#[trigger] entries[i]), config.setup).len() == 0
            || ledger.dom().contains(entry_key(name, config, entries[i]))
}

/// Whether every record of `before` stands unchanged in `after`.
pub open spec fn keeps_records(before: Map<Seq<u8>, Seq<u8>>, after: Map<Seq<u8>, Seq<u8>>) -> bool {
    forall|k: Seq<u8>| #[trigger]
        before.dom().contains(k) ==> after.dom().contains(k) && after[k] == before[k]
}

/// Whether the positions of a list ascend strictly and lie between `low`
/// and `high`, the first included.
pub open spec fn ascends_within(positions: Seq<int>, low: int, high: int) -> bool {
    &&& forall|a: int| 0 <= a < positions.len() ==> low <= #[trigger] positions[a] < high
    &&& forall|a: int, b: int|
        0 <= a < b < positions.len() ==> #[trigger] positions[a] < #[trigger] positions[b]
}

/// Whether no entry between `from` and `i` has the same record key as the
/// entry at `i`.
pub open spec fn first_of_its_key(name: Seq<char>, config: RssConfig, entries: Seq<RawEntry>, from: int, i: int) -> bool {
    forall|j: int|
        from <= j < i ==> entry_key(name, config, #[trigger] entries[j]) != entry_key(
            name,
            config,
            entries[i],
        )
}

/// Whether no other entry from `from` on has the same record key as the
/// entry at `i`.
pub open spec fn only_of_its_key(name: Seq<char>, config: RssConfig, entries: Seq<RawEntry>, from: int, i: int) -> bool {
    forall|j: int|
        from <= j < entries.len() && j != i ==> entry_key(name, config, #[trigger] entries[j])
            != entry_key(name, config, entries[i])
}

proof fn lemma_contains_cons(x: int, rest: Seq<int>, i: int)
    ensures
        (seq![x] + rest).contains(i) <==> (i == x || rest.contains(i)),
{
    let all = seq![x] + rest;
    if all.contains(i) {
        let k = choose|k: int| 0 <= k < all.len() && all[k] == i;
        if k > 0 {
            assert(rest[k - 1] == i);
        }
    }
    if i == x {
        assert(all[0] == i);
    }
    if rest.contains(i) {
        let k = choose|k: int| 0 <= k < rest.len() && rest[k] == i;
        assert(all[k + 1] == i);
    }
}

/// A tick is a chain of scans: it runs to the first entry that is handed
/// out, notes how publishing went, and goes on behind that entry; it ends
/// where a scan finds no entry to hand out or an invalid configuration.
pub proof fn lemma_tick_is_chain_of_scans(
    name: Seq<char>,
    config: RssConfig,
    entries: Seq<RawEntry>,
    from: int,
    ledger: Map<Seq<u8>, Seq<u8>>,
    outcomes: Seq<bool>,
)
    requires
        0 <= from,
    ensures
        ({
            let (stop, reached) = scan(name, config, entries, from, ledger);
            &&& from <= stop || stop == entries.len()
            &&& if stop < entries.len() && plan_kind(name, config, entries[stop], reached)
                == PlanKind::Publish {
                let rest = tick(
                    name,
                    config,
                    entries,
                    stop + 1,
                    ledger_after(name, config, entries, stop, reached, outcomes),
                    outcomes,
                );
                tick(name, config, entries, from, ledger, outcomes) == (seq![stop] + rest.0, rest.1)
            } else {
                tick(name, config, entries, from, ledger, outcomes) == (Seq::<int>::empty(), reached)
            }
        }),
    decreases entries.len() - from,
{
    if from < entries.len() {
        let kind = plan_kind(name, config, entries[from], ledger);
        if kind != PlanKind::Misconfigured && kind != PlanKind::Publish {
            lemma_tick_is_chain_of_scans(
                name,
                config,
                entries,
                from + 1,
                ledger_after(name, config, entries, from, ledger, outcomes),
                outcomes,
            );
        }
    }
}

/// A run that is told how publishing the entry it handed out went goes on
/// as the tick does: behind that entry, with the ledger that the tick has
/// after it.
pub proof fn lemma_run_follows_tick(
    run: FeedRun,
    config: RssConfig,
    ledger: Map<Seq<u8>, Seq<u8>>,
    event: Event,
    outcomes: Seq<bool>,
)
    requires
        run.pending(),
        plan_kind(run.name@, config, run.entries@[run.cursor as int], ledger) == PlanKind::Publish,
        (event == Event::Published) == publish_succeeds(outcomes, run.cursor as int),
    ensures
        run.resume_at() == run.cursor + 1,
        run.noted(config, event, ledger) == ledger_after(
            run.name@,
            config,
            run.entries@,
            run.cursor as int,
            ledger,
            outcomes,
        ),
{
}

/// A tick never takes a record out of the ledger and never rewrites one.
pub proof fn lemma_tick_keeps_records(
    name: Seq<char>,
    config: RssConfig,
    entries: Seq<RawEntry>,
    from: int,
    ledger: Map<Seq<u8>, Seq<u8>>,
    outcomes: Seq<bool>,
)
    ensures
        keeps_records(ledger, tick(name, config, entries, from, ledger, outcomes).1),
    decreases entries.len() - from,
{
    if 0 <= from < entries.len() {
        let kind = plan_kind(name, config, entries[from], ledger);
        if kind != PlanKind::Misconfigured {
            let next = ledger_after(name, config, entries, from, ledger, outcomes);
            lemma_tick_keeps_records(name, config, entries, from + 1, next, outcomes);
            assert(keeps_records(ledger, next));
        }
    }
}

/// A tick that meets nothing new hands out no post and leaves the ledger as
/// it is.
pub proof fn lemma_quiet_tick(
    name: Seq<char>,
    config: RssConfig,
    entries: Seq<RawEntry>,
    from: int,
    ledger: Map<Seq<u8>, Seq<u8>>,
    outcomes: Seq<bool>,
)
    requires
        nothing_new(name, config, entries, from, ledger),
    ensures
        tick(name, config, entries, from, ledger, outcomes) == (Seq::<int>::empty(), ledger),
    decreases entries.len() - from,
{
    if 0 <= from < entries.len() {
        assert(identity(entries[from], config.setup).len() == 0 || ledger.dom().contains(
            entry_key(name, config, entries[from]),
        ));
        lemma_quiet_tick(name, config, entries, from + 1, ledger, outcomes);
    }
}

/// The posts of a tick are handed out in the order of the entries, oldest
/// first, and each entry at most once.
pub proof fn lemma_attempts_ascend(
    name: Seq<char>,
    config: RssConfig,
    entries: Seq<RawEntry>,
    from: int,
    ledger: Map<Seq<u8>, Seq<u8>>,
    outcomes: Seq<bool>,
)
    requires
        0 <= from,
    ensures
        ascends_within(
            tick(name, config, entries, from, ledger, outcomes).0,
            from,
            entries.len() as int,
        ),
    decreases entries.len() - from,
{
    if from < entries.len() {
        let kind = plan_kind(name, config, entries[from], ledger);
        if kind != PlanKind::Misconfigured {
            let next = ledger_after(name, config, entries, from, ledger, outcomes);
            lemma_attempts_ascend(name, config, entries, from + 1, next, outcomes);
            let rest = tick(name, config, entries, from + 1, next, outcomes).0;
            let all = tick(name, config, entries, from, ledger, outcomes).0;
            if kind == PlanKind::Publish {
                assert forall|a: int| 0 <= a < all.len() implies from <= #[trigger] all[a]
                    < entries.len() by {
                    if a > 0 {
                        assert(all[a] == rest[a - 1]);
                    }
                }
                assert forall|a: int, b: int| 0 <= a < b < all.len() implies #[trigger] all[a]
                    < #[trigger] all[b] by {
                    assert(all[b] == rest[b - 1]);
                    if a > 0 {
                        assert(all[a] == rest[a - 1]);
                    }
                }
            }
        }
    }
}

/// An entry whose record the ledger holds is not handed out.
pub proof fn lemma_recorded_is_not_attempted(
    name: Seq<char>,
    config: RssConfig,
    entries: Seq<RawEntry>,
    from: int,
    ledger: Map<Seq<u8>, Seq<u8>>,
    outcomes: Seq<bool>,
    i: int,
)
    requires
        0 <= i < entries.len(),
        ledger.dom().contains(entry_key(name, config, entries[i])),
    ensures
        !tick(name, config, entries, from, ledger, outcomes).0.contains(i),
    decreases entries.len() - from,
{
    if 0 <= from < entries.len() {
        let kind = plan_kind(name, config, entries[from], ledger);
        if kind != PlanKind::Misconfigured {
            let next = ledger_after(name, config, entries, from, ledger, outcomes);
            lemma_recorded_is_not_attempted(name, config, entries, from + 1, next, outcomes, i);
            let rest = tick(name, config, entries, from + 1, next, outcomes).0;
            if kind == PlanKind::Publish {
                lemma_contains_cons(from, rest, i);
            }
        }
    }
}

/// An entry that was handed out and published has its record at the end of
/// the tick.
pub proof fn lemma_published_is_recorded(
    name: Seq<char>,
    config: RssConfig,
    entries: Seq<RawEntry>,
    from: int,
    ledger: Map<Seq<u8>, Seq<u8>>,
    outcomes: Seq<bool>,
    i: int,
)
    requires
        tick(name, config, entries, from, ledger, outcomes).0.contains(i),
        publish_succeeds(outcomes, i),
    ensures
        0 <= i < entries.len(),
        tick(name, config, entries, from, ledger, outcomes).1.dom().contains(
            entry_key(name, config, entries[i]),
        ),
    decreases entries.len() - from,
{
    if 0 <= from < entries.len() {
        let kind = plan_kind(name, config, entries[from], ledger);
        if kind != PlanKind::Misconfigured {
            let next = ledger_after(name, config, entries, from, ledger, outcomes);
            let rest = tick(name, config, entries, from + 1, next, outcomes);
            if kind == PlanKind::Publish {
                lemma_contains_cons(from, rest.0, i);
            }
            if kind == PlanKind::Publish && i == from {
                lemma_tick_keeps_records(name, config, entries, from + 1, next, outcomes);
                assert(next.dom().contains(entry_key(name, config, entries[i])));
            } else {
                lemma_published_is_recorded(name, config, entries, from + 1, next, outcomes, i);
            }
        }
    } else {
        assert(!Seq::<int>::empty().contains(i));
    }
}

/// At most once: an entry that one tick handed out and published is not
/// handed out by a tick that follows it on the same entries, whatever the
/// outcomes of that tick.
pub proof fn theorem_published_once(
    name: Seq<char>,
    config: RssConfig,
    entries: Seq<RawEntry>,
    ledger: Map<Seq<u8>, Seq<u8>>,
    first: Seq<bool>,
    second: Seq<bool>,
    i: int,
)
    requires
        tick(name, config, entries, 0, ledger, first).0.contains(i),
        publish_succeeds(first, i),
    ensures
        tick(name, config, entries, 0, ledger, first).1.dom().contains(
            entry_key(name, config, entries[i]),
        ),
        !tick(
            name,
            config,
            entries,
            0,
            tick(name, config, entries, 0, ledger, first).1,
            second,
        ).0.contains(i),
{
    lemma_published_is_recorded(name, config, entries, 0, ledger, first, i);
    lemma_recorded_is_not_attempted(
        name,
        config,
        entries,
        0,
        tick(name, config, entries, 0, ledger, first).1,
        second,
        i,
    );
}

/// An entry that is handed out has an identity, is not suppressed, had no
/// record when the tick began, and the configuration is valid.
pub proof fn lemma_attempted_is_publishable(
    name: Seq<char>,
    config: RssConfig,
    entries: Seq<RawEntry>,
    from: int,
    ledger: Map<Seq<u8>, Seq<u8>>,
    outcomes: Seq<bool>,
    i: int,
)
    requires
        tick(name, config, entries, from, ledger, outcomes).0.contains(i),
    ensures
        0 <= from <= i < entries.len(),
        config_fault(config) is None,
        identity(entries[i], config.setup).len() > 0,
        !suppressed(entries[i], config),
        !ledger.dom().contains(entry_key(name, config, entries[i])),
    decreases entries.len() - from,
{
    if 0 <= from < entries.len() {
        let kind = plan_kind(name, config, entries[from], ledger);
        if kind != PlanKind::Misconfigured {
            let next = ledger_after(name, config, entries, from, ledger, outcomes);
            let rest = tick(name, config, entries, from + 1, next, outcomes);
            if kind == PlanKind::Publish {
                lemma_contains_cons(from, rest.0, i);
            }
            if !(kind == PlanKind::Publish && i == from) {
                lemma_attempted_is_publishable(name, config, entries, from + 1, next, outcomes, i);
                assert(keeps_records(ledger, next));
            }
        } else {
            assert(!Seq::<int>::empty().contains(i));
        }
    } else {
        assert(!Seq::<int>::empty().contains(i));
    }
}

/// A suppressed entry is never handed out.
pub proof fn lemma_suppressed_is_not_attempted(
    name: Seq<char>,
    config: RssConfig,
    entries: Seq<RawEntry>,
    from: int,
    ledger: Map<Seq<u8>, Seq<u8>>,
    outcomes: Seq<bool>,
    i: int,
)
    requires
        0 <= i < entries.len(),
        suppressed(entries[i], config),
    ensures
        !tick(name, config, entries, from, ledger, outcomes).0.contains(i),
{
    if tick(name, config, entries, from, ledger, outcomes).0.contains(i) {
        lemma_attempted_is_publishable(name, config, entries, from, ledger, outcomes, i);
    }
}

/// Under a valid configuration a suppressed entry that has an identity has
/// its record at the end of the tick.
pub proof fn lemma_suppressed_is_recorded(
    name: Seq<char>,
    config: RssConfig,
    entries: Seq<RawEntry>,
    from: int,
    ledger: Map<Seq<u8>, Seq<u8>>,
    outcomes: Seq<bool>,
    i: int,
)
    requires
        0 <= from <= i < entries.len(),
        config_fault(config) is None,
        suppressed(entries[i], config),
        identity(entries[i], config.setup).len() > 0,
    ensures
        tick(name, config, entries, from, ledger, outcomes).1.dom().contains(
            entry_key(name, config, entries[i]),
        ),
    decreases entries.len() - from,
{
    let next = ledger_after(name, config, entries, from, ledger, outcomes);
    if from == i {
        lemma_tick_keeps_records(name, config, entries, from + 1, next, outcomes);
        assert(next.dom().contains(entry_key(name, config, entries[i])));
    } else {
        lemma_suppressed_is_recorded(name, config, entries, from + 1, next, outcomes, i);
    }
}

/// An entry without identity is never handed out.
pub proof fn lemma_no_identity_is_not_attempted(
    name: Seq<char>,
    config: RssConfig,
    entries: Seq<RawEntry>,
    from: int,
    ledger: Map<Seq<u8>, Seq<u8>>,
    outcomes: Seq<bool>,
    i: int,
)
    requires
        0 <= i < entries.len(),
        identity(entries[i], config.setup).len() == 0,
    ensures
        !tick(name, config, entries, from, ledger, outcomes).0.contains(i),
{
    if tick(name, config, entries, from, ledger, outcomes).0.contains(i) {
        lemma_attempted_is_publishable(name, config, entries, from, ledger, outcomes, i);
    }
}

proof fn lemma_empty_identity_key(name: Seq<char>, id: Seq<char>)
    requires
        key_bytes(name, id) == key_bytes(name, Seq::<char>::empty()),
    ensures
        id.len() == 0,
{
    lemma_encode_injective(ledger_key(name, id), ledger_key(name, Seq::<char>::empty()));
    assert(ledger_key(name, id).len() == name.len() + 1 + id.len());
    assert(ledger_key(name, Seq::<char>::empty()).len() == name.len() + 1);
}

/// A tick never makes a record for the empty identity.
pub proof fn lemma_empty_identity_is_not_recorded(
    name: Seq<char>,
    config: RssConfig,
    entries: Seq<RawEntry>,
    from: int,
    ledger: Map<Seq<u8>, Seq<u8>>,
    outcomes: Seq<bool>,
)
    requires
        !ledger.dom().contains(key_bytes(name, Seq::<char>::empty())),
    ensures
        !tick(name, config, entries, from, ledger, outcomes).1.dom().contains(
            key_bytes(name, Seq::<char>::empty()),
        ),
    decreases entries.len() - from,
{
    if 0 <= from < entries.len() {
        let kind = plan_kind(name, config, entries[from], ledger);
        if kind != PlanKind::Misconfigured {
            let next = ledger_after(name, config, entries, from, ledger, outcomes);
            if next.dom().contains(key_bytes(name, Seq::<char>::empty())) {
                lemma_empty_identity_key(name, identity(entries[from], config.setup));
            }
            lemma_empty_identity_is_not_recorded(name, config, entries, from + 1, next, outcomes);
        }
    }
}

/// Under a valid configuration an entry that has an identity, is not
/// suppressed and has no record is handed out, whatever stands before it,
/// unless an earlier entry of the tick has the same record key.
pub proof fn lemma_unrecorded_is_attempted(
    name: Seq<char>,
    config: RssConfig,
    entries: Seq<RawEntry>,
    from: int,
    ledger: Map<Seq<u8>, Seq<u8>>,
    outcomes: Seq<bool>,
    i: int,
)
    requires
        0 <= from <= i < entries.len(),
        config_fault(config) is None,
        identity(entries[i], config.setup).len() > 0,
        !suppressed(entries[i], config),
        !ledger.dom().contains(entry_key(name, config, entries[i])),
        first_of_its_key(name, config, entries, from, i),
    ensures
        tick(name, config, entries, from, ledger, outcomes).0.contains(i),
    decreases entries.len() - from,
{
    let next = ledger_after(name, config, entries, from, ledger, outcomes);
    let rest = tick(name, config, entries, from + 1, next, outcomes);
    let kind = plan_kind(name, config, entries[from], ledger);
    if kind == PlanKind::Publish {
        lemma_contains_cons(from, rest.0, i);
    }
    if from < i {
        assert(entry_key(name, config, entries[from]) != entry_key(name, config, entries[i]));
        assert(first_of_its_key(name, config, entries, from + 1, i));
        lemma_unrecorded_is_attempted(name, config, entries, from + 1, next, outcomes, i);
    }
}

/// An entry that is not suppressed and whose publishing does not succeed
/// gets no record, unless another entry of the tick has the same record
/// key.
pub proof fn lemma_failed_publish_leaves_no_record(
    name: Seq<char>,
    config: RssConfig,
    entries: Seq<RawEntry>,
    from: int,
    ledger: Map<Seq<u8>, Seq<u8>>,
    outcomes: Seq<bool>,
    i: int,
)
    requires
        0 <= from,
        0 <= i < entries.len(),
        !suppressed(entries[i], config),
        !publish_succeeds(outcomes, i),
        !ledger.dom().contains(entry_key(name, config, entries[i])),
        only_of_its_key(name, config, entries, from, i),
    ensures
        !tick(name, config, entries, from, ledger, outcomes).1.dom().contains(
            entry_key(name, config, entries[i]),
        ),
    decreases entries.len() - from,
{
    if from < entries.len() {
        let kind = plan_kind(name, config, entries[from], ledger);
        if kind != PlanKind::Misconfigured {
            let next = ledger_after(name, config, entries, from, ledger, outcomes);
            if from != i {
                assert(entry_key(name, config, entries[from]) != entry_key(name, config, entries[i]));
            }
            assert(only_of_its_key(name, config, entries, from + 1, i));
            lemma_failed_publish_leaves_no_record(name, config, entries, from + 1, next, outcomes, i);
        }
    }
}

/// At least once: an entry that one tick handed out and whose publishing
/// failed has no record after that tick, and a tick that follows on the same
/// entries hands it out again. This holds of an entry that shares its record
/// key with no other entry of the fetch.
pub proof fn theorem_failed_publish_is_retried(
    name: Seq<char>,
    config: RssConfig,
    entries: Seq<RawEntry>,
    ledger: Map<Seq<u8>, Seq<u8>>,
    first: Seq<bool>,
    second: Seq<bool>,
    i: int,
)
    requires
        tick(name, config, entries, 0, ledger, first).0.contains(i),
        !publish_succeeds(first, i),
        only_of_its_key(name, config, entries, 0, i),
    ensures
        !tick(name, config, entries, 0, ledger, first).1.dom().contains(
            entry_key(name, config, entries[i]),
        ),
        tick(
            name,
            config,
            entries,
            0,
            tick(name, config, entries, 0, ledger, first).1,
            second,
        ).0.contains(i),
{
    lemma_attempted_is_publishable(name, config, entries, 0, ledger, first, i);
    lemma_failed_publish_leaves_no_record(name, config, entries, 0, ledger, first, i);
    assert(first_of_its_key(name, config, entries, 0, i));
    lemma_unrecorded_is_attempted(
        name,
        config,
        entries,
        0,
        tick(name, config, entries, 0, ledger, first).1,
        second,
        i,
    );
}

/// Whether publishing succeeds for every position up to `len`.
pub open spec fn all_succeed(outcomes: Seq<bool>, len: int) -> bool {
    forall|i: int| 0 <= i < len ==> #[trigger] publish_succeeds(outcomes, i)
}

proof fn lemma_all_recorded(
    name: Seq<char>,
    config: RssConfig,
    entries: Seq<RawEntry>,
    from: int,
    ledger: Map<Seq<u8>, Seq<u8>>,
    outcomes: Seq<bool>,
    i: int,
)
    requires
        0 <= from <= i < entries.len(),
        config_fault(config) is None,
        all_succeed(outcomes, entries.len() as int),
        identity(entries[i], config.setup).len() > 0,
    ensures
        tick(name, config, entries, from, ledger, outcomes).1.dom().contains(
            entry_key(name, config, entries[i]),
        ),
    decreases entries.len() - from,
{
    let next = ledger_after(name, config, entries, from, ledger, outcomes);
    if from == i {
        assert(publish_succeeds(outcomes, i));
        lemma_tick_keeps_records(name, config, entries, from + 1, next, outcomes);
        assert(next.dom().contains(entry_key(name, config, entries[i])));
    } else {
        lemma_all_recorded(name, config, entries, from + 1, next, outcomes, i);
    }
}

/// Idempotence: after a tick under a valid configuration in which every
/// publishing succeeded, a second tick on the same entries hands out no
/// post and leaves the ledger as it is.
pub proof fn theorem_second_tick_is_quiet(
    name: Seq<char>,
    config: RssConfig,
    entries: Seq<RawEntry>,
    ledger: Map<Seq<u8>, Seq<u8>>,
    first: Seq<bool>,
    second: Seq<bool>,
)
    requires
        config_fault(config) is None,
        all_succeed(first, entries.len() as int),
    ensures
        tick(name, config, entries, 0, tick(name, config, entries, 0, ledger, first).1, second) == (
            Seq::<int>::empty(),
            tick(name, config, entries, 0, ledger, first).1,
        ),
{
    let after = tick(name, config, entries, 0, ledger, first).1;
    assert forall|i: int| 0 <= i < entries.len() implies identity(
        (#[trigger] entries[i]),
        config.setup,
    ).len() == 0 || after.dom().contains(entry_key(name, config, entries[i])) by {
        if identity(entries[i], config.setup).len() > 0 {
            lemma_all_recorded(name, config, entries, 0, ledger, first, i);
        }
    }
    lemma_quiet_tick(name, config, entries, 0, after, second);
}

} // verus!
