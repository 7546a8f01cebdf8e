use vstd::prelude::*;
use vstd::std_specs::convert::FromSpecImpl;
use vstd::string::StringExecFns;
use core::marker::PhantomData;
use crate::codec::{Decoder, Encoder, SchemaError, SchemaFault, decoding_is};
use crate::db_iterator;
use crate::db_iterator::{DBIterationHandler, DBIterator};
use crate::engine::{after_merge, apply_writes, batch_insert, batch_new, batch_remove};
use crate::engine::{batch_writes, db_merged};
use crate::engine::db_apply_batch;
use crate::engine::{db_contains_key, db_entries, db_get, db_insert, db_merge, db_remove};
use crate::engine::{db_size_on_disk, error_text};
use crate::order::{Entry, ScanPlan, Span, is_scan};
use crate::schema::KeyValueSchema;

verus! {

/// Why a store operation failed.
#[derive(Debug)]
#[allow(inconsistent_fields)]
pub enum DBError {
    /// The engine reported a failure.
    SledError { error: sled::Error },
    /// A key or a value could not be encoded or decoded.
    SchemaError { error: SchemaError },
}

impl From<SchemaError> for DBError {
    fn from(error: SchemaError) -> (r: DBError) {
        DBError::SchemaError { error }
    }
}

impl FromSpecImpl<SchemaError> for DBError {
    open spec fn obeys_from_spec() -> bool {
        true
    }

    open spec fn from_spec(error: SchemaError) -> DBError {
        DBError::SchemaError { error }
    }
}

impl From<sled::Error> for DBError {
    fn from(error: sled::Error) -> (r: DBError) {
        DBError::SledError { error }
    }
}

impl FromSpecImpl<sled::Error> for DBError {
    open spec fn obeys_from_spec() -> bool {
        true
    }

    open spec fn from_spec(error: sled::Error) -> DBError {
        DBError::SledError { error }
    }
}

/// The line that reports an error of the engine, from the engine's own words for it.
pub fn engine_message(words: &str) -> (text: String)
    ensures
        text@ == "SledDB error: "@ + words@,
{
    let mut text = String::from_str("SledDB error: ");
    text.append(words);
    text
}

impl DBError {
    /// The error in words: where it came from, then what it says.
    ///
    /// For a schema error the text is fixed by the error. For an error of the
    /// engine what follows the heading is the engine's own description, which
    /// depends on the system for an error of input or output.
    pub fn message(&self) -> (text: String)
        ensures
            match self {
                DBError::SchemaError { error } => text@ == "Schema error: "@ + error@.message(),
                DBError::SledError { .. } => "SledDB error: "@.is_prefix_of(text@),
            },
    {
        match self {
            DBError::SchemaError { error } => {
                let mut text = String::from_str("Schema error: ");
                text.append(error.message().as_str());
                text
            },
            DBError::SledError { error } => engine_message(error_text(error).as_str()),
        }
    }
}

/// What a store reports of its use of resources.
#[derive(Clone, Copy, Debug)]
pub struct DBStats {
    size_on_disk: u64,
}

impl DBStats {
    /// The size that the statistics report.
    pub closed spec fn size(&self) -> u64 {
        self.size_on_disk
    }

    /// The number of bytes that the store takes on disk, or 0 where that is not known.
    pub fn size_on_disk(&self) -> (r: u64)
        ensures
            r == self.size(),
    {
        self.size_on_disk
    }

    /// The statistics that follow from what the engine said of its size on disk: the
    /// size it gave, or 0 where it could not tell.
    pub fn from_report(report: Result<u64, sled::Error>) -> (stats: DBStats)
        ensures
            stats.size() == (match report {
                Ok(n) => n,
                Err(_) => 0,
            }),
    {
        match report {
            Ok(n) => DBStats { size_on_disk: n },
            Err(_) => DBStats { size_on_disk: 0 },
        }
    }
}

/// The direction in which a typed scan walks the keys.
#[derive(Clone, Copy, Debug, PartialEq, Eq, Structural)]
pub enum Direction {
    /// From lesser keys to greater ones.
    Forward,
    /// From greater keys to lesser ones.
    Reverse,
}

/// Where a typed scan starts, and which way it goes.
pub enum IteratorMode<'a, S: KeyValueSchema> {
    /// From the least key, ascending.
    Start,
    /// From the greatest key, descending.
    End,
    /// From the given key, which is included where the store has it: ascending over
    /// the keys at or after it, or descending over the keys at or before it.
    From(&'a S::Key, Direction),
}

/// The bytes of a key under the schema `S`.
pub open spec fn key_bytes<S: KeyValueSchema>(key: <S::Key as View>::V) -> Result<
    Seq<u8>,
    SchemaFault,
> {
    <S::Key as Encoder>::encoded(key)
}

/// The bytes of a value under the schema `S`.
pub open spec fn value_bytes<S: KeyValueSchema>(value: <S::Value as View>::V) -> Result<
    Seq<u8>,
    SchemaFault,
> {
    <S::Value as Encoder>::encoded(value)
}

/// The encoded pair that a write of `key` and `value` hands to the engine. The key
/// is encoded first, so where neither can be encoded the key's fault is reported.
pub open spec fn pair_bytes<S: KeyValueSchema>(
    key: <S::Key as View>::V,
    value: <S::Value as View>::V,
) -> Result<Entry, SchemaFault> {
    match key_bytes::<S>(key) {
        Err(e) => Err(e),
        Ok(k) => match value_bytes::<S>(value) {
            Err(e) => Err(e),
            Ok(v) => Ok((k, v)),
        },
    }
}

/// What a lookup of `key` finds in the entries `m`, where the engine does not fail:
/// nothing where `m` has no entry under the key's bytes, else the stored value, decoded.
pub open spec fn lookup<S: KeyValueSchema>(m: Map<Seq<u8>, Seq<u8>>, key: <S::Key as View>::V) -> Result<
    Option<<S::Value as View>::V>,
    SchemaFault,
> {
    match key_bytes::<S>(key) {
        Err(e) => Err(e),
        Ok(k) => if m.contains_key(k) {
            match <S::Value as Decoder>::decoded(m[k]) {
                Ok(v) => Ok(Some(v)),
                Err(e) => Err(e),
            }
        } else {
            Ok(None)
        },
    }
}

/// The entries `m` after `value` was put under `key`.
pub open spec fn with_put<S: KeyValueSchema>(
    m: Map<Seq<u8>, Seq<u8>>,
    key: <S::Key as View>::V,
    value: <S::Value as View>::V,
) -> Result<Map<Seq<u8>, Seq<u8>>, SchemaFault> {
    match pair_bytes::<S>(key, value) {
        Err(e) => Err(e),
        Ok(kv) => Ok(m.insert(kv.0, kv.1)),
    }
}

/// The entries `m` after `key` was deleted.
pub open spec fn with_delete<S: KeyValueSchema>(
    m: Map<Seq<u8>, Seq<u8>>,
    key: <S::Key as View>::V,
) -> Result<Map<Seq<u8>, Seq<u8>>, SchemaFault> {
    match key_bytes::<S>(key) {
        Err(e) => Err(e),
        Ok(k) => Ok(m.remove(k)),
    }
}

/// The writes `w` of a batch after a put of `value` under `key` was added.
pub open spec fn with_queued_put<S: KeyValueSchema>(
    w: Map<Seq<u8>, Option<Seq<u8>>>,
    key: <S::Key as View>::V,
    value: <S::Value as View>::V,
) -> Result<Map<Seq<u8>, Option<Seq<u8>>>, SchemaFault> {
    match pair_bytes::<S>(key, value) {
        Err(e) => Err(e),
        Ok(kv) => Ok(w.insert(kv.0, Some(kv.1))),
    }
}

/// The writes `w` of a batch after a delete of `key` was added.
pub open spec fn with_queued_delete<S: KeyValueSchema>(
    w: Map<Seq<u8>, Option<Seq<u8>>>,
    key: <S::Key as View>::V,
) -> Result<Map<Seq<u8>, Option<Seq<u8>>>, SchemaFault> {
    match key_bytes::<S>(key) {
        Err(e) => Err(e),
        Ok(k) => Ok(w.insert(k, None)),
    }
}

/// The writes of a batch to which nothing has been added.
pub open spec fn no_writes() -> Map<Seq<u8>, Option<Seq<u8>>> {
    Map::empty()
}

/// Makes a batch that holds no write.
pub fn new_batch() -> (batch: sled::Batch)
    ensures
        batch_writes(batch) == no_writes(),
{
    let batch = batch_new();
    assert(batch_writes(batch) =~= no_writes());
    batch
}

/// What a scan over the keys that begin with the bytes of `key` is asked for.
pub open spec fn prefix_plan<S: KeyValueSchema>(key: <S::Key as View>::V) -> Result<
    ScanPlan,
    SchemaFault,
> {
    match key_bytes::<S>(key) {
        Err(e) => Err(e),
        Ok(k) => Ok(ScanPlan { span: Span::Prefix(k), descending: false }),
    }
}

impl<'a, S: KeyValueSchema> IteratorMode<'a, S> {
    /// What a scan in this mode is asked for, or the fault of its key where the key
    /// cannot be encoded.
    pub open spec fn plan(self) -> Result<ScanPlan, SchemaFault> {
        match self {
            IteratorMode::Start => Ok(ScanPlan { span: Span::All, descending: false }),
            IteratorMode::End => Ok(ScanPlan { span: Span::All, descending: true }),
            IteratorMode::From(key, Direction::Forward) => match key_bytes::<S>(key@) {
                Err(e) => Err(e),
                Ok(k) => Ok(ScanPlan { span: Span::AtLeast(k), descending: false }),
            },
            IteratorMode::From(key, Direction::Reverse) => match key_bytes::<S>(key@) {
                Err(e) => Err(e),
                Ok(k) => Ok(ScanPlan { span: Span::AtMost(k), descending: true }),
            },
        }
    }
}

/// What one stored entry decodes to under the schema `S`: the outcome for the key
/// and, apart from it, the outcome for the value.
pub open spec fn decoded_entry<S: KeyValueSchema>(entry: Entry) -> (
    Result<<S::Key as View>::V, SchemaFault>,
    Result<<S::Value as View>::V, SchemaFault>,
) {
    (<S::Key as Decoder>::decoded(entry.0), <S::Value as Decoder>::decoded(entry.1))
}

/// What a sequence of stored entries decodes to under the schema `S`, entry by entry.
pub open spec fn decoded_items<S: KeyValueSchema>(entries: Seq<Entry>) -> Seq<
    (Result<<S::Key as View>::V, SchemaFault>, Result<<S::Value as View>::V, SchemaFault>),
> {
    Seq::new(entries.len(), |i: int| decoded_entry::<S>(entries[i]))
}

/// Whether `item` is what a typed scan hands out for an entry that decodes to `owed`.
pub open spec fn item_is<S: KeyValueSchema>(
    item: (Result<S::Key, SchemaError>, Result<S::Value, SchemaError>),
    owed: (Result<<S::Key as View>::V, SchemaFault>, Result<<S::Value as View>::V, SchemaFault>),
) -> bool {
    decoding_is(item.0, owed.0) && decoding_is(item.1, owed.1)
}

/// Encodes a key for the engine. Only the codec of the key can make this fail.
pub fn encode_key<S: KeyValueSchema>(key: &S::Key) -> (r: Result<Vec<u8>, DBError>)
    ensures
        match r {
            Ok(bytes) => key_bytes::<S>(key@) == Ok::<Seq<u8>, SchemaFault>(bytes@),
            Err(DBError::SchemaError { error }) => key_bytes::<S>(key@) == Err::<
                Seq<u8>,
                SchemaFault,
            >(error@),
            Err(DBError::SledError { .. }) => false,
        },
{
    match key.encode() {
        Ok(bytes) => Ok(bytes),
        Err(error) => Err(DBError::SchemaError { error }),
    }
}

/// Encodes a key and a value for the engine, the key first. Only the two codecs can
/// make this fail.
pub fn encode_pair<S: KeyValueSchema>(key: &S::Key, value: &S::Value) -> (r: Result<
    (Vec<u8>, Vec<u8>),
    DBError,
>)
    ensures
        match r {
            Ok(pair) => pair_bytes::<S>(key@, value@) == Ok::<Entry, SchemaFault>(
                (pair.0@, pair.1@),
            ),
            Err(DBError::SchemaError { error }) => pair_bytes::<S>(key@, value@) == Err::<
                Entry,
                SchemaFault,
            >(error@),
            Err(DBError::SledError { .. }) => false,
        },
{
    let key = match key.encode() {
        Ok(bytes) => bytes,
        Err(error) => {
            return Err(DBError::SchemaError { error });
        },
    };
    match value.encode() {
        Ok(value) => Ok((key, value)),
        Err(error) => Err(DBError::SchemaError { error }),
    }
}

/// What a store operation reports for an outcome of the engine: the engine's
/// success as it is, and the engine's error as `DBError::SledError`.
pub fn engine_outcome<T>(outcome: Result<T, sled::Error>) -> (r: Result<T, DBError>)
    ensures
        r == (match outcome {
            Ok(t) => Ok::<T, DBError>(t),
            Err(error) => Err::<T, DBError>(DBError::SledError { error }),
        }),
{
    match outcome {
        Ok(t) => Ok(t),
        Err(error) => Err(DBError::SledError { error }),
    }
}

/// What a lookup reports for what the engine found under a key: nothing where the
/// engine found nothing, else the bytes found, decoded as a value of the schema. A
/// value that cannot be decoded is an error, not an absent key.
pub fn found_value<S: KeyValueSchema>(found: Option<Vec<u8>>) -> (r: Result<
    Option<S::Value>,
    DBError,
>)
    ensures
        match r {
            Ok(Some(v)) => found is Some && <S::Value as Decoder>::decoded(found->0@) == Ok::<
                <S::Value as View>::V,
                SchemaFault,
            >(v@),
            Ok(None) => found is None,
            Err(DBError::SchemaError { error }) => found is Some && <S::Value as Decoder>::decoded(
                found->0@,
            ) == Err::<<S::Value as View>::V, SchemaFault>(error@),
            Err(DBError::SledError { .. }) => false,
        },
{
    match found {
        None => Ok(None),
        Some(bytes) => match S::Value::decode(bytes.as_slice()) {
            Ok(value) => Ok(Some(value)),
            Err(error) => Err(DBError::SchemaError { error }),
        },
    }
}

/// What a typed scan hands out for one step of the scan over encoded entries: the
/// entry with its key and its value decoded, each on its own, or the end of the scan
/// where the step is the end or an error of the engine.
pub fn decoded_step<S: KeyValueSchema>(step: Option<Result<(Vec<u8>, Vec<u8>), sled::Error>>) -> (r:
    Option<(Result<S::Key, SchemaError>, Result<S::Value, SchemaError>)>)
    ensures
        match step {
            Some(Ok(entry)) => r is Some && item_is::<S>(
                r->0,
                decoded_entry::<S>((entry.0@, entry.1@)),
            ),
            Some(Err(_)) => r is None,
            None => r is None,
        },
{
    match step {
        Some(Ok(entry)) => Some(
            (S::Key::decode(entry.0.as_slice()), S::Value::decode(entry.1.as_slice())),
        ),
        Some(Err(_)) => None,
        None => None,
    }
}

/// A scan over the entries of a store, decoded under the schema `S`.
///
/// Each entry comes as a pair of outcomes, one for its key and one for its value. An
/// entry that cannot be decoded is handed out with the fault, and the scan goes on.
/// An error of the engine ends the scan, and `has_failed` then says so.
///
/// The scan keeps the store borrowed and cannot outlive it, so nothing is written
/// through the store while the scan lives. An ascending scan reads the store step by
/// step: it is a moving view, as the engine's own scan is. A descending scan reads
/// the entries of its range when it is made. What is said here of the entries to
/// come holds while no other handle of the same database writes to it.
pub struct IteratorWithSchema<'a, S: KeyValueSchema>(DBIterator<'a>, PhantomData<S>);

impl<'a, S: KeyValueSchema> IteratorWithSchema<'a, S> {
    /// What the scan was asked for.
    pub closed spec fn plan(&self) -> ScanPlan {
        self.0.plan()
    }

    /// The encoded entries that the scan has yet to hand out, in the order in which
    /// they will come.
    pub closed spec fn pending(&self) -> Seq<Entry> {
        self.0.pending()
    }

    /// Whether an error of the engine has ended the scan.
    pub closed spec fn failed(&self) -> bool {
        self.0.failed()
    }

    /// Whether an error of the engine has ended the scan.
    pub fn has_failed(&self) -> (r: bool)
        ensures
            r == self.failed(),
    {
        self.0.has_failed()
    }

    /// Hands out the next entry, decoded.
    ///
    /// `None` means that the scan is over: every entry has come, or the engine
    /// reported an error, now or earlier.
    pub fn next(&mut self) -> (r: Option<(Result<S::Key, SchemaError>, Result<S::Value, SchemaError>)>)
        ensures
            final(self).plan() == old(self).plan(),
            match r {
                Some(item) => {
                    &&& old(self).pending().len() > 0
                    &&& item_is::<S>(item, decoded_entry::<S>(old(self).pending().first()))
                    &&& final(self).pending() == old(self).pending().drop_first()
                    &&& !old(self).failed()
                    &&& !final(self).failed()
                },
                None => {
                    &&& final(self).pending().len() == 0
                    &&& old(self).failed() || old(self).pending().len() > 0 ==> final(self).failed()
                },
            },
    {
        decoded_step::<S>(self.0.next())
    }

    /// Hands out every entry that is left, decoded, in the order of the scan.
    ///
    /// The result is shorter than what was pending only where the engine reported an
    /// error, which `has_failed` then tells.
    pub fn collect(&mut self) -> (items: Vec<(Result<S::Key, SchemaError>, Result<S::Value, SchemaError>)>)
        ensures
            final(self).plan() == old(self).plan(),
            final(self).pending().len() == 0,
            items.len() <= old(self).pending().len(),
            forall|i: int|
                0 <= i < items.len() ==> item_is::<S>(
                    #[trigger] items[i],
                    decoded_items::<S>(old(self).pending())[i],
                ),
            old(self).failed() || items.len() < old(self).pending().len() ==> final(self).failed(),
    {
        let mut items: Vec<(Result<S::Key, SchemaError>, Result<S::Value, SchemaError>)> = Vec::new();
        loop
            invariant_except_break
                self.pending() == old(self).pending().skip(items.len() as int),
                self.failed() == old(self).failed(),
            invariant
                self.plan() == old(self).plan(),
                items.len() <= old(self).pending().len(),
                forall|i: int|
                    0 <= i < items.len() ==> item_is::<S>(
                        #[trigger] items[i],
                        decoded_items::<S>(old(self).pending())[i],
                    ),
            ensures
                self.plan() == old(self).plan(),
                self.pending().len() == 0,
                items.len() <= old(self).pending().len(),
                forall|i: int|
                    0 <= i < items.len() ==> item_is::<S>(
                        #[trigger] items[i],
                        decoded_items::<S>(old(self).pending())[i],
                    ),
                old(self).failed() || items.len() < old(self).pending().len() ==> self.failed(),
            decreases self.pending().len(),
        {
            let ghost before = self.pending();
            match self.next() {
                Some(item) => {
                    assert(before.first() == old(self).pending()[items.len() as int]);
                    assert(before.drop_first() =~= old(self).pending().skip(items.len() + 1));
                    items.push(item);
                },
                None => {
                    break ;
                },
            }
        }
        items
    }
}

/// A store of encoded entries in a sled database.
///
/// The store itself knows no schema: each operation names the schema under which it
/// encodes and decodes, so one store serves keys and values of several schemas.
///
/// Reads borrow the store; writes borrow it exclusively, so that each write can say
/// what the store holds after it. The store does nothing in the background, does
/// not retry and does not log.
///
/// A sled database can be reached through several handles at once. What the
/// operations say of the entries holds while this store is the only handle that
/// writes: a clone of the handle that writes in the meantime changes the entries
/// behind the store's back.
pub struct SledDBWrapper {
    db: sled::Db,
}

impl SledDBWrapper {
    /// The encoded entries that the store holds.
    pub closed spec fn stored(&self) -> Map<Seq<u8>, Seq<u8>> {
        db_entries(self.db)
    }

    /// What the merge operator of the database makes of `operand` for `key`, as
    /// the store stands.
    pub closed spec fn merge_made(&self, key: Seq<u8>, operand: Seq<u8>) -> Option<Seq<u8>> {
        db_merged(self.db, key, operand)
    }

    /// Wraps an open database. The wrapper holds what the database holds, and
    /// merges as the database does.
    pub fn new(db: sled::Db) -> (store: Self)
        ensures
            store.stored() == db_entries(db),
            forall|key: Seq<u8>, operand: Seq<u8>| #[trigger]
                store.merge_made(key, operand) == db_merged(db, key, operand),
    {
        SledDBWrapper { db }
    }
}

/// The operations of a store on keys and values of the schema `S`.
///
/// A key or a value that cannot be encoded, and a stored value that cannot be
/// decoded, is reported as `DBError::SchemaError`; a failure of the engine as
/// `DBError::SledError`.
///
/// `put`, `delete`, `merge` and `write_batch` borrow the store exclusively. That is
/// what lets each of them say what the store holds afterwards, and it means that
/// one store cannot be shared by several writers at once: writers take turns.
///
/// Every clause on the entries holds while this store is the only handle of its
/// database that writes. An engine whose handles are cloned and written through
/// elsewhere changes the entries between two calls, and no clause speaks of that.
pub trait KeyValueStoreWithSchema<S: KeyValueSchema> {
    /// The encoded entries that the store holds.
    spec fn entries(&self) -> Map<Seq<u8>, Seq<u8>>;

    /// What the merge operator of the engine makes of the bytes `operand` for the
    /// key bytes `key`, as the store stands: the bytes to store, or `None` where
    /// the key is to hold nothing.
    spec fn merged(&self, key: Seq<u8>, operand: Seq<u8>) -> Option<Seq<u8>>;

    /// Stores `value` under `key`, in place of what the key held before.
    ///
    /// Where the key or the value cannot be encoded, the store is unchanged. Where
    /// the engine fails, nothing is known of the entries afterwards.
    fn put(&mut self, key: &S::Key, value: &S::Value) -> (r: Result<(), DBError>)
        ensures
            match r {
                Ok(_) => with_put::<S>(old(self).entries(), key@, value@) == Ok::<
                    Map<Seq<u8>, Seq<u8>>,
                    SchemaFault,
                >(final(self).entries()),
                Err(DBError::SchemaError { error }) => {
                    &&& pair_bytes::<S>(key@, value@) == Err::<Entry, SchemaFault>(error@)
                    &&& final(self).entries() == old(self).entries()
                },
                Err(DBError::SledError { .. }) => pair_bytes::<S>(key@, value@) is Ok,
            },
    ;

    /// Removes `key` and what it holds. A key that the store does not hold is no error.
    ///
    /// Where the key cannot be encoded, the store is unchanged. Where the engine
    /// fails, nothing is known of the entries afterwards.
    fn delete(&mut self, key: &S::Key) -> (r: Result<(), DBError>)
        ensures
            match r {
                Ok(_) => with_delete::<S>(old(self).entries(), key@) == Ok::<
                    Map<Seq<u8>, Seq<u8>>,
                    SchemaFault,
                >(final(self).entries()),
                Err(DBError::SchemaError { error }) => {
                    &&& key_bytes::<S>(key@) == Err::<Seq<u8>, SchemaFault>(error@)
                    &&& final(self).entries() == old(self).entries()
                },
                Err(DBError::SledError { .. }) => key_bytes::<S>(key@) is Ok,
            },
    ;

    /// Reads what `key` holds: `None` where the store has no such key.
    fn get(&self, key: &S::Key) -> (r: Result<Option<S::Value>, DBError>)
        ensures
            match r {
                Ok(Some(v)) => lookup::<S>(self.entries(), key@) == Ok::<
                    Option<<S::Value as View>::V>,
                    SchemaFault,
                >(Some(v@)),
                Ok(None) => lookup::<S>(self.entries(), key@) == Ok::<
                    Option<<S::Value as View>::V>,
                    SchemaFault,
                >(None),
                Err(DBError::SchemaError { error }) => lookup::<S>(self.entries(), key@) == Err::<
                    Option<<S::Value as View>::V>,
                    SchemaFault,
                >(error@),
                Err(DBError::SledError { .. }) => key_bytes::<S>(key@) is Ok,
            },
    ;

    /// Hands the bytes of `value` to the merge operator of the engine for `key`.
    ///
    /// The store combines nothing itself: afterwards the key holds what the
    /// engine's operator made of those bytes and of what the key held, or nothing
    /// where the operator made nothing, and no other key has changed. An engine
    /// that was given no operator fails. Where the key or the value cannot be
    /// encoded, the store is unchanged. Where the engine fails, nothing is known of
    /// the entries afterwards.
    fn merge(&mut self, key: &S::Key, value: &S::Value) -> (r: Result<(), DBError>)
        ensures
            match r {
                Ok(_) => {
                    &&& pair_bytes::<S>(key@, value@) is Ok
                    &&& final(self).entries() == after_merge(
                        old(self).entries(),
                        pair_bytes::<S>(key@, value@)->Ok_0.0,
                        old(self).merged(
                            pair_bytes::<S>(key@, value@)->Ok_0.0,
                            pair_bytes::<S>(key@, value@)->Ok_0.1,
                        ),
                    )
                },
                Err(DBError::SchemaError { error }) => {
                    &&& pair_bytes::<S>(key@, value@) == Err::<Entry, SchemaFault>(error@)
                    &&& final(self).entries() == old(self).entries()
                },
                Err(DBError::SledError { .. }) => pair_bytes::<S>(key@, value@) is Ok,
            },
    ;

    /// Starts a scan in the given mode. Only the key of the mode can make this fail.
    fn iterator(&self, mode: IteratorMode<S>) -> (r: Result<IteratorWithSchema<'_, S>, DBError>)
        ensures
            match r {
                Ok(it) => {
                    &&& mode.plan() == Ok::<ScanPlan, SchemaFault>(it.plan())
                    &&& !it.failed()
                    &&& is_scan(it.pending(), self.entries(), it.plan())
                },
                Err(DBError::SchemaError { error }) => mode.plan() == Err::<ScanPlan, SchemaFault>(
                    error@,
                ),
                Err(DBError::SledError { .. }) => false,
            },
    ;

    /// Starts an ascending scan over the entries whose encoded key begins with the
    /// encoding of `key`. Only the key can make this fail.
    fn prefix_iterator(&self, key: &S::Key) -> (r: Result<IteratorWithSchema<'_, S>, DBError>)
        ensures
            match r {
                Ok(it) => {
                    &&& prefix_plan::<S>(key@) == Ok::<ScanPlan, SchemaFault>(it.plan())
                    &&& !it.failed()
                    &&& is_scan(it.pending(), self.entries(), it.plan())
                },
                Err(DBError::SchemaError { error }) => prefix_plan::<S>(key@) == Err::<
                    ScanPlan,
                    SchemaFault,
                >(error@),
                Err(DBError::SledError { .. }) => false,
            },
    ;

    /// Whether the store holds `key`. What the key holds is not decoded.
    fn contains(&self, key: &S::Key) -> (r: Result<bool, DBError>)
        ensures
            match r {
                Ok(b) => key_bytes::<S>(key@) is Ok && b == self.entries().contains_key(
                    key_bytes::<S>(key@)->Ok_0,
                ),
                Err(DBError::SchemaError { error }) => key_bytes::<S>(key@) == Err::<
                    Seq<u8>,
                    SchemaFault,
                >(error@),
                Err(DBError::SledError { .. }) => key_bytes::<S>(key@) is Ok,
            },
    ;

    /// Adds a put of `value` under `key` to `batch`. The store is not touched.
    ///
    /// Where the key or the value cannot be encoded, the batch is unchanged.
    fn put_batch(&self, batch: &mut sled::Batch, key: &S::Key, value: &S::Value) -> (r: Result<
        (),
        DBError,
    >)
        ensures
            match r {
                Ok(_) => with_queued_put::<S>(batch_writes(*old(batch)), key@, value@) == Ok::<
                    Map<Seq<u8>, Option<Seq<u8>>>,
                    SchemaFault,
                >(batch_writes(*final(batch))),
                Err(DBError::SchemaError { error }) => {
                    &&& pair_bytes::<S>(key@, value@) == Err::<Entry, SchemaFault>(error@)
                    &&& batch_writes(*final(batch)) == batch_writes(*old(batch))
                },
                Err(DBError::SledError { .. }) => false,
            },
    ;

    /// Adds a delete of `key` to `batch`. The store is not touched.
    ///
    /// Where the key cannot be encoded, the batch is unchanged.
    fn delete_batch(&self, batch: &mut sled::Batch, key: &S::Key) -> (r: Result<(), DBError>)
        ensures
            match r {
                Ok(_) => with_queued_delete::<S>(batch_writes(*old(batch)), key@) == Ok::<
                    Map<Seq<u8>, Option<Seq<u8>>>,
                    SchemaFault,
                >(batch_writes(*final(batch))),
                Err(DBError::SchemaError { error }) => {
                    &&& key_bytes::<S>(key@) == Err::<Seq<u8>, SchemaFault>(error@)
                    &&& batch_writes(*final(batch)) == batch_writes(*old(batch))
                },
                Err(DBError::SledError { .. }) => false,
            },
    ;

    /// Applies every write of `batch` as one. Only the engine can make this fail.
    ///
    /// A batch that is applied is applied whole. A batch on which the engine fails
    /// is not known to be all or nothing: the engine puts the writes in place one
    /// by one and stops at the first that fails, so the store may then hold some of
    /// the writes and not the others. Nothing is said of the entries in that case.
    fn write_batch(&mut self, batch: sled::Batch) -> (r: Result<(), DBError>)
        ensures
            match r {
                Ok(_) => final(self).entries() == apply_writes(
                    old(self).entries(),
                    batch_writes(batch),
                ),
                Err(DBError::SchemaError { .. }) => false,
                Err(DBError::SledError { .. }) => true,
            },
    ;

    /// Reports the size of the store on disk, as far as the engine can tell. This
    /// does not fail: a size that the engine cannot tell is reported as 0.
    fn get_mem_use_stats(&self) -> (r: Result<DBStats, DBError>)
        ensures
            r is Ok,
    ;
}

impl<S: KeyValueSchema> KeyValueStoreWithSchema<S> for SledDBWrapper {
    open spec fn entries(&self) -> Map<Seq<u8>, Seq<u8>> {
        self.stored()
    }

    open spec fn merged(&self, key: Seq<u8>, operand: Seq<u8>) -> Option<Seq<u8>> {
        self.merge_made(key, operand)
    }

    fn put(&mut self, key: &S::Key, value: &S::Value) -> (r: Result<(), DBError>) {
        let (key, value) = encode_pair::<S>(key, value)?;
        engine_outcome(db_insert(&mut self.db, key.as_slice(), value))
    }

    fn delete(&mut self, key: &S::Key) -> (r: Result<(), DBError>) {
        let key = encode_key::<S>(key)?;
        engine_outcome(db_remove(&mut self.db, key.as_slice()))
    }

    fn merge(&mut self, key: &S::Key, value: &S::Value) -> (r: Result<(), DBError>) {
        let (key, value) = encode_pair::<S>(key, value)?;
        engine_outcome(db_merge(&mut self.db, key.as_slice(), value.as_slice()))
    }

    fn get(&self, key: &S::Key) -> (r: Result<Option<S::Value>, DBError>) {
        let key = encode_key::<S>(key)?;
        let found = engine_outcome(db_get(&self.db, key.as_slice()))?;
        found_value::<S>(found)
    }

    fn iterator(&self, mode: IteratorMode<S>) -> (r: Result<IteratorWithSchema<'_, S>, DBError>) {
        let iter = match mode {
            IteratorMode::Start => self.db.iterator(db_iterator::IteratorMode::Start),
            IteratorMode::End => self.db.iterator(db_iterator::IteratorMode::End),
            IteratorMode::From(key, direction) => {
                let key = encode_key::<S>(key)?;
                match direction {
                    Direction::Forward => self.db.iterator(
                        db_iterator::IteratorMode::From(key, db_iterator::Direction::Forward),
                    ),
                    Direction::Reverse => self.db.iterator(
                        db_iterator::IteratorMode::From(key, db_iterator::Direction::Reverse),
                    ),
                }
            },
        };
        Ok(IteratorWithSchema(iter, PhantomData))
    }

    fn prefix_iterator(&self, key: &S::Key) -> (r: Result<IteratorWithSchema<'_, S>, DBError>) {
        let key = encode_key::<S>(key)?;
        let iter = self.db.scan_prefix_iterator(key.as_slice());
        Ok(IteratorWithSchema(iter, PhantomData))
    }

    fn contains(&self, key: &S::Key) -> (r: Result<bool, DBError>) {
        let key = encode_key::<S>(key)?;
        engine_outcome(db_contains_key(&self.db, key.as_slice()))
    }

    fn put_batch(&self, batch: &mut sled::Batch, key: &S::Key, value: &S::Value) -> (r: Result<
        (),
        DBError,
    >) {
        let (key, value) = encode_pair::<S>(key, value)?;
        batch_insert(batch, key, value);
        Ok(())
    }

    fn delete_batch(&self, batch: &mut sled::Batch, key: &S::Key) -> (r: Result<(), DBError>) {
        let key = encode_key::<S>(key)?;
        batch_remove(batch, key);
        Ok(())
    }

    fn write_batch(&mut self, batch: sled::Batch) -> (r: Result<(), DBError>) {
        engine_outcome(db_apply_batch(&mut self.db, batch))
    }

    fn get_mem_use_stats(&self) -> (r: Result<DBStats, DBError>) {
        Ok(DBStats::from_report(db_size_on_disk(&self.db)))
    }
}

} // verus!
