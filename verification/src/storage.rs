//! The ledger: a persistent record of the entries that were handled, kept in
//! an embedded key-value store. A record is the key `<feed>:<entry>` in
//! UTF-8; its value is empty.

use vstd::prelude::*;
use vstd::string::*;
use vstd::utf8::*;
use crate::text::lemma_encode_concat;
use crate::text::lemma_prefix_boundary;
use crate::text::lemma_encode_injective;

verus! {

#[verifier::external_type_specification]
#[verifier::external_body]
pub struct ExDb(sled::Db);

#[verifier::external_type_specification]
#[verifier::external_body]
pub struct ExBatch(sled::Batch);

#[verifier::external_type_specification]
#[verifier::external_body]
pub struct ExStoreError(sled::Error);

/// What the default tree of a store holds: its keys, each with its value.
pub uninterp spec fn db_entries(db: sled::Db) -> Map<Seq<u8>, Seq<u8>>;

/// The writes that a batch holds: for each key the value to set, or `None`
/// where the key is to be removed.
pub uninterp spec fn batch_writes(batch: sled::Batch) -> Map<Seq<u8>, Option<Seq<u8>>>;

/// Whether `prefix` is a prefix of `key`.
pub open spec fn has_prefix(key: Seq<u8>, prefix: Seq<u8>) -> bool {
    prefix.len() <= key.len() && key.subrange(0, prefix.len() as int) == prefix
}

/// The lexicographic order of byte strings, strict.
pub open spec fn bytes_less(a: Seq<u8>, b: Seq<u8>) -> bool
    decreases a.len(),
{
    if b.len() == 0 {
        false
    } else if a.len() == 0 {
        true
    } else if a[0] != b[0] {
        a[0] < b[0]
    } else {
        bytes_less(a.drop_first(), b.drop_first())
    }
}

/// The entries of a store after a batch of writes: a key that the batch
/// writes has the batch's value or is gone, every other key is as before.
pub open spec fn applied(entries: Map<Seq<u8>, Seq<u8>>, writes: Map<Seq<u8>, Option<Seq<u8>>>) -> Map<
    Seq<u8>,
    Seq<u8>,
> {
    Map::new(
        |k: Seq<u8>|
            if writes.dom().contains(k) {
                writes[k] is Some
            } else {
                entries.dom().contains(k)
            },
        |k: Seq<u8>|
            if writes.dom().contains(k) {
                writes[k]->0
            } else {
                entries[k]
            },
    )
}

/// Whether `key` stands in `keys`.
pub open spec fn key_listed(keys: Seq<Vec<u8>>, key: Seq<u8>) -> bool {
    exists|i: int| 0 <= i < keys.len() && (#[trigger] keys[i])@ == key
}

/// Whether the keys of a list ascend strictly.
pub open spec fn ascending(keys: Seq<Vec<u8>>) -> bool {
    forall|i: int, j: int|
        0 <= i < j < keys.len() ==> (#[trigger] keys[i])@ != (#[trigger] keys[j])@ && bytes_less(
            keys[i]@,
            keys[j]@,
        )
}

/// Whether `keys` lists exactly the keys of `entries` that begin with
/// `prefix`, each once and in ascending order.
pub open spec fn lists_prefixed(keys: Seq<Vec<u8>>, entries: Map<Seq<u8>, Seq<u8>>, prefix: Seq<u8>) -> bool {
    &&& forall|k: Seq<u8>|
        (entries.dom().contains(k) && has_prefix(k, prefix)) <==> #[trigger] key_listed(keys, k)
    &&& ascending(keys)
}

/// `sled::open`: opens the store at `path`, creating it where there is none.
/// What the store then holds depends on what is on disk, so nothing is
/// claimed of it.
#[verifier::external_body]
fn db_open(path: &str) -> (r: Result<sled::Db, sled::Error>) {
    sled::open(path)
}

/// `sled::Tree::get` on the default tree: the value under `key`, or `None`
/// where the store has no such key. The store is left as it is.
#[verifier::external_body]
fn db_get(db: &sled::Db, key: &[u8]) -> (r: Result<Option<Vec<u8>>, sled::Error>)
    ensures
        r matches Ok(found) ==> (match found {
            Some(value) => db_entries(*db).dom().contains(key@) && db_entries(*db)[key@] == value@,
            None => !db_entries(*db).dom().contains(key@),
        }),
{
    db.get(key).map(|found| found.map(|value| value.to_vec()))
}

/// `sled::Tree::insert` on the default tree: sets `key` to `value` and
/// returns the value that it had. Where the call fails nothing is claimed of
/// the store.
#[verifier::external_body]
fn db_insert(db: &mut sled::Db, key: &[u8], value: &[u8]) -> (r: Result<Option<Vec<u8>>, sled::Error>)
    ensures
        r matches Ok(before) ==> {
            &&& db_entries(*final(db)) == db_entries(*old(db)).insert(key@, value@)
            &&& match before {
                Some(v) => db_entries(*old(db)).dom().contains(key@) && db_entries(*old(db))[key@] == v@,
                None => !db_entries(*old(db)).dom().contains(key@),
            }
        },
{
    db.insert(key, value).map(|before| before.map(|v| v.to_vec()))
}

/// `sled::Tree::remove` on the default tree: deletes `key` and returns the
/// value that it had. Where the call fails nothing is claimed of the store.
#[verifier::external_body]
fn db_remove(db: &mut sled::Db, key: &[u8]) -> (r: Result<Option<Vec<u8>>, sled::Error>)
    ensures
        r matches Ok(before) ==> {
            &&& db_entries(*final(db)) == db_entries(*old(db)).remove(key@)
            &&& match before {
                Some(v) => db_entries(*old(db)).dom().contains(key@) && db_entries(*old(db))[key@] == v@,
                None => !db_entries(*old(db)).dom().contains(key@),
            }
        },
{
    db.remove(key).map(|before| before.map(|v| v.to_vec()))
}

/// `sled::Tree::scan_prefix` on the default tree, reduced to the keys: the
/// keys that begin with `prefix`, in the order of the tree, which is the
/// lexicographic order of the keys. The store is left as it is.
#[verifier::external_body]
fn db_scan_prefix(db: &sled::Db, prefix: &[u8]) -> (r: Result<Vec<Vec<u8>>, sled::Error>)
    ensures
        r matches Ok(keys) ==> lists_prefixed(keys@, db_entries(*db), prefix@),
{
    db.scan_prefix(prefix).keys().map(|key| key.map(|k| k.to_vec())).collect()
}

/// `sled::Batch::default`: a batch without writes.
#[verifier::external_body]
fn batch_new() -> (r: sled::Batch)
    ensures
        batch_writes(r).dom() == Set::<Seq<u8>>::empty(),
{
    sled::Batch::default()
}

/// `sled::Batch::insert`: notes in the batch that `key` is to be set to
/// `value`, in place of an earlier write of that key.
#[verifier::external_body]
fn batch_insert(batch: &mut sled::Batch, key: &[u8], value: &[u8])
    ensures
        batch_writes(*final(batch)) == batch_writes(*old(batch)).insert(key@, Some(value@)),
{
    batch.insert(key, value)
}

/// `sled::Tree::apply_batch` on the default tree: performs all writes of the
/// batch. Where the call fails nothing is claimed of the store.
#[verifier::external_body]
fn db_apply_batch(db: &mut sled::Db, batch: sled::Batch) -> (r: Result<(), sled::Error>)
    ensures
        r is Ok ==> db_entries(*final(db)) == applied(db_entries(*old(db)), batch_writes(batch)),
{
    db.apply_batch(batch)
}

/// `sled::Tree::flush`: writes all pending changes to disk and returns the
/// number of bytes written. Once it has succeeded, the writes made before it
/// survive a crash. The store holds what it held.
#[verifier::external_body]
fn db_flush(db: &sled::Db) -> (r: Result<usize, sled::Error>) {
    db.flush()
}

/// `core::str::from_utf8`: the bytes as text where they are UTF-8, `None`
/// where they are not.
#[verifier::external_body]
fn text_of(bytes: &[u8]) -> (r: Option<&str>)
    ensures
        r.is_some() == valid_utf8(bytes@),
        r matches Some(s) ==> s@ == decode_utf8(bytes@),
{
    core::str::from_utf8(bytes).ok()
}

/// Why an operation on the ledger failed.
#[derive(Debug)]
pub enum StorageError {
    /// The store reported a fault; the error is the store's own.
    Backend(sled::Error),
    /// A key under the feed's prefix is not UTF-8.
    InvalidKey,
}

/// The key of a record as text.
pub open spec fn ledger_key(feed: Seq<char>, id: Seq<char>) -> Seq<char> {
    feed + seq![':'] + id
}

/// The key of a record as it is stored.
pub open spec fn key_bytes(feed: Seq<char>, id: Seq<char>) -> Seq<u8> {
    encode_utf8(ledger_key(feed, id))
}

/// The prefix that the keys of a feed's records share.
pub open spec fn feed_prefix(feed: Seq<char>) -> Seq<char> {
    feed + seq![':']
}

/// Whether a feed has a key in the store that is not UTF-8.
pub open spec fn has_invalid_key(entries: Map<Seq<u8>, Seq<u8>>, feed: Seq<char>) -> bool {
    exists|k: Seq<u8>|
        #![trigger entries.dom().contains(k)]
        entries.dom().contains(k) && has_prefix(k, encode_utf8(feed_prefix(feed))) && !valid_utf8(k)
}

/// Whether `id` stands in `ids`.
pub open spec fn id_listed(ids: Seq<String>, id: Seq<char>) -> bool {
    exists|i: int| 0 <= i < ids.len() && (#[trigger] ids[i])@ == id
}

/// Whether no text stands twice in `ids`.
pub open spec fn distinct_ids(ids: Seq<String>) -> bool {
    forall|i: int, j: int| 0 <= i < j < ids.len() ==> (#[trigger] ids[i])@ != (#[trigger] ids[j])@
}

/// Whether the identifiers of a list stand in the ascending order of their
/// keys under `feed`.
pub open spec fn ids_ascend(feed: Seq<char>, ids: Seq<String>) -> bool {
    forall|i: int, j: int|
        0 <= i < j < ids.len() ==> bytes_less(
            key_bytes(feed, (#[trigger] ids[i])@),
            key_bytes(feed, (#[trigger] ids[j])@),
        )
}

/// Whether a batch of records holds the key `key`.
pub open spec fn in_bulk(data: Seq<(String, Vec<String>)>, key: Seq<u8>) -> bool {
    exists|i: int, j: int|
        0 <= i < data.len() && 0 <= j < data[i].1@.len() && key == #[trigger] key_bytes(
            data[i].0@,
            data[i].1@[j]@,
        )
}

/// Whether the key `key` belongs to the first `n` feeds of a batch of
/// records, or to the first `m` entries of the feed after them.
pub open spec fn in_bulk_upto(data: Seq<(String, Vec<String>)>, n: int, m: int, key: Seq<u8>) -> bool {
    exists|i: int, j: int|
        0 <= i < data.len() && 0 <= j < data[i].1@.len() && (i < n || (i == n && j < m)) && key
            == #[trigger] key_bytes(data[i].0@, data[i].1@[j]@)
}

/// The store after a batch of records was added to it.
pub open spec fn with_bulk(entries: Map<Seq<u8>, Seq<u8>>, data: Seq<(String, Vec<String>)>) -> Map<
    Seq<u8>,
    Seq<u8>,
> {
    Map::new(
        |k: Seq<u8>| in_bulk(data, k) || entries.dom().contains(k),
        |k: Seq<u8>|
            if in_bulk(data, k) {
                Seq::empty()
            } else {
                entries[k]
            },
    )
}

/// The ledger.
pub struct Storage {
    db: sled::Db,
}

fn record_key(feed_name: &str, item_id: &str) -> (key: String)
    ensures
        key@ == ledger_key(feed_name@, item_id@),
{
    proof {
        reveal_strlit(":");
    }
    let mut key = String::from_str(feed_name);
    key.append(":");
    key.append(item_id);
    assert(key@ =~= ledger_key(feed_name@, item_id@));
    key
}

fn backend_error(e: sled::Error) -> (r: StorageError)
    ensures
        r == StorageError::Backend(e),
{
    StorageError::Backend(e)
}

/// What a flush of the store comes to for the ledger: done where the store
/// flushed, the store's own fault where it did not.
pub fn flush_outcome(outcome: Result<usize, sled::Error>) -> (r: Result<(), StorageError>)
    ensures
        match outcome {
            Ok(_) => r is Ok,
            Err(e) => r == Err::<(), StorageError>(StorageError::Backend(e)),
        },
{
    match outcome {
        Ok(_) => Ok(()),
        Err(e) => Err(backend_error(e)),
    }
}

impl View for Storage {
    type V = Map<Seq<u8>, Seq<u8>>;

    closed spec fn view(&self) -> Map<Seq<u8>, Seq<u8>> {
        db_entries(self.db)
    }
}

impl Storage {
    /// Whether the ledger holds a record for an entry of a feed.
    pub open spec fn marked(&self, feed: Seq<char>, id: Seq<char>) -> bool {
        self@.dom().contains(key_bytes(feed, id))
    }

    /// Makes the changes so far durable: when this has returned `Ok`, they
    /// survive a crash. Whether it succeeds is the store's to decide.
    fn persist(&self) -> (r: Result<(), StorageError>)
        ensures
            r matches Err(e) ==> e is Backend,
    {
        flush_outcome(db_flush(&self.db))
    }

    /// What an attempt to open a store comes to: a ledger over the store
    /// that was opened, or the store's own fault.
    pub fn from_opened(outcome: Result<sled::Db, sled::Error>) -> (r: Result<Storage, StorageError>)
        ensures
            match outcome {
                Ok(db) => r matches Ok(ledger) && ledger@ == db_entries(db),
                Err(e) => r matches Err(fault) && fault == StorageError::Backend(e),
            },
    {
        match outcome {
            Ok(db) => Ok(Storage { db }),
            Err(e) => Err(backend_error(e)),
        }
    }

    /// Opens the ledger kept at `path`, or creates it. Only the store can
    /// fail here, and its fault is handed on. What the ledger then holds is
    /// what the store at `path` holds.
    pub fn new(path: &str) -> (r: Result<Storage, StorageError>)
        ensures
            r matches Err(e) ==> e is Backend,
    {
        Storage::from_opened(db_open(path))
    }

    /// Tells whether an entry of a feed has a record.
    pub fn is_processed(&self, feed_name: &str, item_id: &str) -> (r: Result<bool, StorageError>)
        ensures
            match r {
                Ok(found) => found == self.marked(feed_name@, item_id@),
                Err(e) => e is Backend,
            },
    {
        let key = record_key(feed_name, item_id);
        match db_get(&self.db, key.as_str().as_bytes()) {
            Ok(found) => Ok(found.is_some()),
            Err(e) => Err(backend_error(e)),
        }
    }

    /// Records an entry of a feed as handled, durably. The other records stay
    /// as they are.
    pub fn mark_processed(&mut self, feed_name: &str, item_id: &str) -> (r: Result<(), StorageError>)
        ensures
            match r {
                Ok(_) => final(self)@ == old(self)@.insert(key_bytes(feed_name@, item_id@), Seq::empty())
                    && final(self).marked(feed_name@, item_id@),
                Err(e) => e is Backend,
            },
    {
        let key = record_key(feed_name, item_id);
        let empty: Vec<u8> = Vec::new();
        match db_insert(&mut self.db, key.as_str().as_bytes(), empty.as_slice()) {
            Ok(_) => self.persist(),
            Err(e) => Err(backend_error(e)),
        }
    }

    /// Takes the record of an entry of a feed out of the ledger. The other
    /// records stay as they are.
    pub fn remove_processed(&mut self, feed_name: &str, item_id: &str) -> (r: Result<(), StorageError>)
        ensures
            match r {
                Ok(_) => final(self)@ == old(self)@.remove(key_bytes(feed_name@, item_id@))
                    && !final(self).marked(feed_name@, item_id@),
                Err(e) => e is Backend,
            },
    {
        let key = record_key(feed_name, item_id);
        match db_remove(&mut self.db, key.as_str().as_bytes()) {
            Ok(_) => self.persist(),
            Err(e) => Err(backend_error(e)),
        }
    }

    /// Records all entries of a batch as handled in one step: `data` lists
    /// feeds, each with the identifiers of its entries. The other records
    /// stay as they are.
    pub fn mark_processed_bulk(&mut self, data: Vec<(String, Vec<String>)>) -> (r: Result<(), StorageError>)
        ensures
            match r {
                Ok(_) => {
                    &&& final(self)@ == with_bulk(old(self)@, data@)
                    &&& forall|i: int, j: int|
                        0 <= i < data@.len() && 0 <= j < data@[i].1@.len() ==> final(self).marked(
                            #[trigger] data@[i].0@,
                            #[trigger] data@[i].1@[j]@,
                        )
                },
                Err(e) => e is Backend,
            },
    {
        let mut batch = batch_new();
        let empty: Vec<u8> = Vec::new();
        let mut i: usize = 0;
        while i < data.len()
            invariant
                i <= data@.len(),
                empty@ == Seq::<u8>::empty(),
                forall|k: Seq<u8>| #[trigger]
                    batch_writes(batch).dom().contains(k) <==> in_bulk_upto(data@, i as int, 0, k),
                forall|k: Seq<u8>| #[trigger]
                    batch_writes(batch).dom().contains(k) ==> batch_writes(batch)[k] == Some(
                        Seq::<u8>::empty(),
                    ),
            decreases data@.len() - i,
        {
            let feed = &data[i].0;
            let ids = &data[i].1;
            let mut j: usize = 0;
            while j < ids.len()
                invariant
                    i < data@.len(),
                    feed == &data@[i as int].0,
                    ids == &data@[i as int].1,
                    j <= ids@.len(),
                    empty@ == Seq::<u8>::empty(),
                    forall|k: Seq<u8>| #[trigger]
                        batch_writes(batch).dom().contains(k) <==> in_bulk_upto(
                            data@,
                            i as int,
                            j as int,
                            k,
                        ),
                    forall|k: Seq<u8>| #[trigger]
                        batch_writes(batch).dom().contains(k) ==> batch_writes(batch)[k] == Some(
                            Seq::<u8>::empty(),
                        ),
                decreases ids@.len() - j,
            {
                let key = record_key(feed.as_str(), ids[j].as_str());
                let ghost before = batch_writes(batch);
                batch_insert(&mut batch, key.as_str().as_bytes(), empty.as_slice());
                proof {
                    let added = key_bytes(data@[i as int].0@, data@[i as int].1@[j as int]@);
                    assert(batch_writes(batch) == before.insert(added, Some(Seq::<u8>::empty())));
                    assert forall|k: Seq<u8>| #[trigger]
                        batch_writes(batch).dom().contains(k) <==> in_bulk_upto(
                            data@,
                            i as int,
                            j + 1,
                            k,
                        ) by {
                        lemma_upto_entry(data@, i as int, j as int, k);
                    }
                }
                j += 1;
            }
            proof {
                assert forall|k: Seq<u8>| #[trigger]
                    batch_writes(batch).dom().contains(k) <==> in_bulk_upto(data@, i + 1, 0, k) by {
                    lemma_upto_feed(data@, i as int, k);
                }
            }
            i += 1;
        }
        proof {
            assert forall|k: Seq<u8>| #[trigger]
                batch_writes(batch).dom().contains(k) <==> in_bulk(data@, k) by {
                lemma_upto_all(data@, k);
            }
        }
        match db_apply_batch(&mut self.db, batch) {
            Ok(_) => {
                proof {
                    assert(self@ =~= with_bulk(old(self)@, data@));
                    assert forall|a: int, b: int|
                        0 <= a < data@.len() && 0 <= b < data@[a].1@.len() implies self.marked(
                        #[trigger] data@[a].0@,
                        #[trigger] data@[a].1@[b]@,
                    ) by {
                        assert(in_bulk(data@, key_bytes(data@[a].0@, data@[a].1@[b]@)));
                    }
                }
                self.persist()
            },
            Err(e) => Err(backend_error(e)),
        }
    }

    /// Lists the identifiers of the entries of a feed that have a record,
    /// each once, in the order of their keys. Fails with `InvalidKey` where a
    /// key of the feed is not UTF-8.
    pub fn get_processed_ids(&self, feed_name: &str) -> (r: Result<Vec<String>, StorageError>)
        ensures
            match r {
                Ok(ids) => {
                    &&& forall|id: Seq<char>| #[trigger]
                        id_listed(ids@, id) <==> self.marked(feed_name@, id)
                    &&& distinct_ids(ids@)
                    &&& ids_ascend(feed_name@, ids@)
                    &&& !has_invalid_key(self@, feed_name@)
                },
                Err(StorageError::InvalidKey) => has_invalid_key(self@, feed_name@),
                Err(StorageError::Backend(_)) => true,
            },
    {
        proof {
            reveal_strlit(":");
        }
        let mut prefix = String::from_str(feed_name);
        prefix.append(":");
        assert(prefix@ =~= feed_prefix(feed_name@));
        let prefix_len = prefix.as_str().unicode_len();
        let keys = match db_scan_prefix(&self.db, prefix.as_str().as_bytes()) {
            Ok(keys) => keys,
            Err(e) => {
                return Err(backend_error(e));
            },
        };
        let mut ids: Vec<String> = Vec::new();
        let mut i: usize = 0;
        while i < keys.len()
            invariant
                i <= keys@.len(),
                ids@.len() == i,
                prefix@ == feed_prefix(feed_name@),
                prefix_len == prefix@.len(),
                lists_prefixed(keys@, self@, encode_utf8(prefix@)),
                forall|t: int|
                    0 <= t < i ==> valid_utf8((#[trigger] keys@[t])@) && key_bytes(
                        feed_name@,
                        ids@[t]@,
                    ) == keys@[t]@,
            decreases keys@.len() - i,
        {
            let ghost key = keys@[i as int]@;
            assert(key_listed(keys@, key));
            match text_of(keys[i].as_slice()) {
                None => {
                    return Err(StorageError::InvalidKey);
                },
                Some(text) => {
                    proof {
                        lemma_key_text(key, prefix@);
                    }
                    let total = text.unicode_len();
                    let id = String::from_str(text.substring_char(prefix_len, total));
                    proof {
                        assert(prefix@ + id@ =~= text@);
                        assert(ledger_key(feed_name@, id@) =~= text@);
                        decode_utf8_encode_utf8(key);
                    }
                    ids.push(id);
                },
            }
            i += 1;
        }
        proof {
            assert forall|id: Seq<char>| #[trigger]
                id_listed(ids@, id) <==> self.marked(feed_name@, id) by {
                if id_listed(ids@, id) {
                    let t = choose|t: int| 0 <= t < ids@.len() && (#[trigger] ids@[t])@ == id;
                    assert(key_listed(keys@, keys@[t]@));
                }
                if self.marked(feed_name@, id) {
                    let wanted = key_bytes(feed_name@, id);
                    assert(ledger_key(feed_name@, id) =~= prefix@ + id);
                    lemma_encode_concat(prefix@, id);
                    assert(wanted.subrange(0, encode_utf8(prefix@).len() as int) =~= encode_utf8(
                        prefix@,
                    ));
                    assert(key_listed(keys@, wanted));
                    let t = choose|t: int| 0 <= t < keys@.len() && (#[trigger] keys@[t])@ == wanted;
                    lemma_encode_injective(ledger_key(feed_name@, ids@[t]@), ledger_key(feed_name@, id));
                    assert(ids@[t]@ =~= ledger_key(feed_name@, ids@[t]@).subrange(
                        prefix@.len() as int,
                        ledger_key(feed_name@, ids@[t]@).len() as int,
                    ));
                    assert(id =~= ledger_key(feed_name@, id).subrange(
                        prefix@.len() as int,
                        ledger_key(feed_name@, id).len() as int,
                    ));
                    assert(ids@[t]@ == id);
                }
            }
            assert(distinct_ids(ids@)) by {
                assert forall|a: int, b: int| 0 <= a < b < ids@.len() implies (#[trigger] ids@[a])@ != (
                #[trigger] ids@[b])@ by {
                    assert(keys@[a]@ != keys@[b]@);
                }
            }
            assert(ids_ascend(feed_name@, ids@)) by {
                assert forall|a: int, b: int| 0 <= a < b < ids@.len() implies bytes_less(
                    key_bytes(feed_name@, (#[trigger] ids@[a])@),
                    key_bytes(feed_name@, (#[trigger] ids@[b])@),
                ) by {
                    assert(bytes_less(keys@[a]@, keys@[b]@));
                }
            }
            assert(!has_invalid_key(self@, feed_name@)) by {
                assert forall|k: Seq<u8>|
                    self@.dom().contains(k) && has_prefix(
                        k,
                        encode_utf8(feed_prefix(feed_name@)),
                    ) implies valid_utf8(k) by {
                    assert(key_listed(keys@, k));
                }
            }
        }
        Ok(ids)
    }
}

/// A key that is UTF-8 and begins with the encoding of `prefix` stands for
/// a text that begins with `prefix`.
proof fn lemma_key_text(key: Seq<u8>, prefix: Seq<char>)
    requires
        valid_utf8(key),
        has_prefix(key, encode_utf8(prefix)),
    ensures
        decode_utf8(key).len() >= prefix.len(),
        decode_utf8(key).subrange(0, prefix.len() as int) == prefix,
{
    let n = encode_utf8(prefix).len() as int;
    encode_utf8_valid_utf8(prefix);
    lemma_prefix_boundary(key, n);
    decode_utf8_split(key, n);
    encode_utf8_decode_utf8(prefix);
    assert(decode_utf8(key).subrange(0, prefix.len() as int) =~= prefix);
}

proof fn lemma_upto_entry(data: Seq<(String, Vec<String>)>, n: int, m: int, key: Seq<u8>)
    requires
        0 <= n < data.len(),
        0 <= m < data[n].1@.len(),
    ensures
        in_bulk_upto(data, n, m + 1, key) <==> (in_bulk_upto(data, n, m, key) || key == key_bytes(
            data[n].0@,
            data[n].1@[m]@,
        )),
{
    if in_bulk_upto(data, n, m + 1, key) {
        let (i, j) = choose|i: int, j: int|
            0 <= i < data.len() && 0 <= j < data[i].1@.len() && (i < n || (i == n && j < m + 1)) && key
                == #[trigger] key_bytes(data[i].0@, data[i].1@[j]@);
        if !(i == n && j == m) {
            assert(in_bulk_upto(data, n, m, key));
        }
    }
    if key == key_bytes(data[n].0@, data[n].1@[m]@) {
        assert(in_bulk_upto(data, n, m + 1, key));
    }
    if in_bulk_upto(data, n, m, key) {
        let (i, j) = choose|i: int, j: int|
            0 <= i < data.len() && 0 <= j < data[i].1@.len() && (i < n || (i == n && j < m)) && key
                == #[trigger] key_bytes(data[i].0@, data[i].1@[j]@);
        assert(in_bulk_upto(data, n, m + 1, key));
    }
}

proof fn lemma_upto_feed(data: Seq<(String, Vec<String>)>, n: int, key: Seq<u8>)
    requires
        0 <= n < data.len(),
    ensures
        in_bulk_upto(data, n, data[n].1@.len() as int, key) <==> in_bulk_upto(data, n + 1, 0, key),
{
    if in_bulk_upto(data, n, data[n].1@.len() as int, key) {
        let (i, j) = choose|i: int, j: int|
            0 <= i < data.len() && 0 <= j < data[i].1@.len() && (i < n || (i == n && j
                < data[n].1@.len())) && key == #[trigger] key_bytes(data[i].0@, data[i].1@[j]@);
        assert(in_bulk_upto(data, n + 1, 0, key));
    }
    if in_bulk_upto(data, n + 1, 0, key) {
        let (i, j) = choose|i: int, j: int|
            0 <= i < data.len() && 0 <= j < data[i].1@.len() && (i < n + 1 || (i == n + 1 && j < 0))
                && key == #[trigger] key_bytes(data[i].0@, data[i].1@[j]@);
        assert(in_bulk_upto(data, n, data[n].1@.len() as int, key));
    }
}

proof fn lemma_upto_all(data: Seq<(String, Vec<String>)>, key: Seq<u8>)
    ensures
        in_bulk_upto(data, data.len() as int, 0, key) <==> in_bulk(data, key),
{
    if in_bulk_upto(data, data.len() as int, 0, key) {
        let (i, j) = choose|i: int, j: int|
            0 <= i < data.len() && 0 <= j < data[i].1@.len() && (i < data.len() || (i == data.len()
                && j < 0)) && key == #[trigger] key_bytes(data[i].0@, data[i].1@[j]@);
        assert(in_bulk(data, key));
    }
    if in_bulk(data, key) {
        let (i, j) = choose|i: int, j: int|
            0 <= i < data.len() && 0 <= j < data[i].1@.len() && key == #[trigger] key_bytes(
                data[i].0@,
                data[i].1@[j]@,
            );
        assert(in_bulk_upto(data, data.len() as int, 0, key));
    }
}

} // verus!
