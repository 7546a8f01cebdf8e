use vstd::prelude::*;
use crate::order::{Entry, Span, ascending_listing};

verus! {

/// The handle of an open sled store.
#[verifier::external_type_specification]
#[verifier::external_body]
pub struct ExDb(sled::Db);

/// The error that every fallible sled operation reports.
#[verifier::external_type_specification]
#[verifier::external_body]
pub struct ExEngineError(sled::Error);

/// sled's double-ended scan over a range of keys.
#[verifier::external_type_specification]
#[verifier::external_body]
pub struct ExIter(sled::Iter);

/// sled's owned byte string, the type of the keys and values that a scan hands out.
#[verifier::external_type_specification]
#[verifier::external_body]
pub struct ExIVec(sled::IVec);

/// sled's set of writes that is applied as one.
#[verifier::external_type_specification]
#[verifier::external_body]
pub struct ExBatch(sled::Batch);

/// A scan of the engine together with the borrow of the store that it reads.
///
/// sled's scan reads the store anew at each step. The borrow keeps the store from
/// being written to through this handle for as long as the scan lives, so that what
/// the scan has pending stays what it was when the scan was made.
pub struct Scan<'a> {
    pub(crate) iter: sled::Iter,
    pub(crate) store: &'a sled::Db,
}

/// The entries that the default tree of a store holds: a map from key bytes to
/// value bytes.
///
/// The contracts below read it as the state of the handle, changed by what is done
/// through the handle and by nothing else. sled lets a handle be cloned and shared;
/// the contracts hold of a store that no clone writes to in the meantime.
pub uninterp spec fn db_entries(db: sled::Db) -> Map<Seq<u8>, Seq<u8>>;

/// What the merge operator that a store was given makes of an operand for a key and
/// of what the store holds under that key: the value to store under the key, or
/// `None` where the key is to hold nothing.
pub uninterp spec fn db_merged(db: sled::Db, key: Seq<u8>, operand: Seq<u8>) -> Option<Seq<u8>>;

/// The entries that a scan has yet to hand out, keys ascending in the byte order
/// of `bytes_lt`: `next` takes from the front.
pub uninterp spec fn iter_pending(it: sled::Iter) -> Seq<Entry>;

/// The writes that a batch holds: for each key it names, the value to store under
/// it, or `None` where the key is to be removed.
pub uninterp spec fn batch_writes(batch: sled::Batch) -> Map<Seq<u8>, Option<Seq<u8>>>;

/// The entries of a store after a set of writes: a key that the writes name holds
/// what they say, and every other key is as before.
pub open spec fn apply_writes(m: Map<Seq<u8>, Seq<u8>>, w: Map<Seq<u8>, Option<Seq<u8>>>) -> Map<
    Seq<u8>,
    Seq<u8>,
> {
    Map::new(
        |k: Seq<u8>|
            if w.contains_key(k) {
                w[k] is Some
            } else {
                m.contains_key(k)
            },
        |k: Seq<u8>|
            if w.contains_key(k) {
                w[k]->0
            } else {
                m[k]
            },
    )
}

/// The entries of a store after a merge under `key`, where the merge operator made
/// `made`: the key holds the value made, or nothing where none was made, and every
/// other key is as before.
pub open spec fn after_merge(m: Map<Seq<u8>, Seq<u8>>, key: Seq<u8>, made: Option<Seq<u8>>) -> Map<
    Seq<u8>,
    Seq<u8>,
> {
    match made {
        Some(value) => m.insert(key, value),
        None => m.remove(key),
    }
}

/// `sled::Tree::insert`, reached through the store handle. On success the key holds
/// the new value and no other key has changed. Of a failed call nothing is claimed.
#[verifier::external_body]
pub(crate) fn db_insert(db: &mut sled::Db, key: &[u8], value: Vec<u8>) -> (r: Result<
    (),
    sled::Error,
>)
    ensures
        r is Ok ==> db_entries(*final(db)) == db_entries(*old(db)).insert(key@, value@),
{
    match db.insert(key, value) {
        Ok(_) => Ok(()),
        Err(e) => Err(e),
    }
}

/// `sled::Tree::remove`, reached through the store handle. On success the key is
/// absent and no other key has changed. Of a failed call nothing is claimed.
#[verifier::external_body]
pub(crate) fn db_remove(db: &mut sled::Db, key: &[u8]) -> (r: Result<(), sled::Error>)
    ensures
        r is Ok ==> db_entries(*final(db)) == db_entries(*old(db)).remove(key@),
{
    match db.remove(key) {
        Ok(_) => Ok(()),
        Err(e) => Err(e),
    }
}

/// `sled::Tree::merge`, reached through the store handle. On success the key holds
/// what the merge operator of the store made of `value` and of what the key held,
/// or nothing where the operator made nothing; no other key has changed. Without
/// an operator the call fails. Of a failed call nothing is claimed.
#[verifier::external_body]
pub(crate) fn db_merge(db: &mut sled::Db, key: &[u8], value: &[u8]) -> (r: Result<
    (),
    sled::Error,
>)
    ensures
        r is Ok ==> db_entries(*final(db)) == after_merge(
            db_entries(*old(db)),
            key@,
            db_merged(*old(db), key@, value@),
        ),
{
    match db.merge(key, value) {
        Ok(_) => Ok(()),
        Err(e) => Err(e),
    }
}

/// `sled::Tree::get`, reached through the store handle. On success the result is the
/// value stored under the key, or `None` where the store has no such key.
#[verifier::external_body]
pub(crate) fn db_get(db: &sled::Db, key: &[u8]) -> (r: Result<Option<Vec<u8>>, sled::Error>)
    ensures
        match r {
            Ok(Some(v)) => db_entries(*db).contains_key(key@) && db_entries(*db)[key@] == v@,
            Ok(None) => !db_entries(*db).contains_key(key@),
            Err(_) => true,
        },
{
    match db.get(key) {
        Ok(Some(v)) => Ok(Some(v.to_vec())),
        Ok(None) => Ok(None),
        Err(e) => Err(e),
    }
}

/// `sled::Tree::contains_key`, reached through the store handle. On success the
/// result says whether the store has the key.
#[verifier::external_body]
pub(crate) fn db_contains_key(db: &sled::Db, key: &[u8]) -> (r: Result<bool, sled::Error>)
    ensures
        match r {
            Ok(b) => b == db_entries(*db).contains_key(key@),
            Err(_) => true,
        },
{
    db.contains_key(key)
}

/// `sled::Tree::apply_batch`, reached through the store handle. On success every
/// write of the batch has taken effect. Of a failed call nothing is claimed.
#[verifier::external_body]
pub(crate) fn db_apply_batch(db: &mut sled::Db, batch: sled::Batch) -> (r: Result<
    (),
    sled::Error,
>)
    ensures
        r is Ok ==> db_entries(*final(db)) == apply_writes(
            db_entries(*old(db)),
            batch_writes(batch),
        ),
{
    db.apply_batch(batch)
}

/// `sled::Db::size_on_disk`. The number depends on the files of the store, so
/// nothing is claimed of it.
#[verifier::external_body]
pub(crate) fn db_size_on_disk(db: &sled::Db) -> (r: Result<u64, sled::Error>) {
    db.size_on_disk()
}

/// `sled::Tree::iter`: a scan over every entry of the store.
#[verifier::external_body]
pub(crate) fn db_iter<'a>(db: &'a sled::Db) -> (scan: Scan<'a>)
    ensures
        ascending_listing(iter_pending(scan.iter), db_entries(*db), Span::All),
{
    Scan { iter: db.iter(), store: db }
}

/// `sled::Tree::range` with a lower bound that includes `key` and no upper bound.
#[verifier::external_body]
pub(crate) fn db_range_from<'a>(db: &'a sled::Db, key: &[u8]) -> (scan: Scan<'a>)
    ensures
        ascending_listing(iter_pending(scan.iter), db_entries(*db), Span::AtLeast(key@)),
{
    Scan { iter: db.range(key..), store: db }
}

/// `sled::Tree::range` with an upper bound that includes `key` and no lower bound.
#[verifier::external_body]
pub(crate) fn db_range_through<'a>(db: &'a sled::Db, key: &[u8]) -> (scan: Scan<'a>)
    ensures
        ascending_listing(iter_pending(scan.iter), db_entries(*db), Span::AtMost(key@)),
{
    Scan { iter: db.range(..=key), store: db }
}

/// `sled::Tree::scan_prefix`: a scan over the entries whose key begins with `prefix`.
#[verifier::external_body]
pub(crate) fn db_scan_prefix<'a>(db: &'a sled::Db, prefix: &[u8]) -> (scan: Scan<'a>)
    ensures
        ascending_listing(iter_pending(scan.iter), db_entries(*db), Span::Prefix(prefix@)),
{
    Scan { iter: db.scan_prefix(prefix), store: db }
}

/// `Iterator::next` of `sled::Iter`. An entry that comes out is the first of those
/// pending and leaves them; `None` comes only when none is pending. After an error
/// nothing is claimed of what is pending.
///
/// Only this forward step is used: on some stores sled's backward step does not return.
#[verifier::external_body]
pub(crate) fn iter_next(it: &mut sled::Iter) -> (r: Option<Result<(Vec<u8>, Vec<u8>), sled::Error>>)
    ensures
        match r {
            Some(Ok(kv)) => {
                &&& iter_pending(*old(it)).len() > 0
                &&& (kv.0@, kv.1@) == iter_pending(*old(it)).first()
                &&& iter_pending(*final(it)) == iter_pending(*old(it)).drop_first()
            },
            Some(Err(_)) => true,
            None => iter_pending(*old(it)).len() == 0 && iter_pending(*final(it)).len() == 0,
        },
{
    match it.next() {
        Some(Ok((k, v))) => Some(Ok((k.to_vec(), v.to_vec()))),
        Some(Err(e)) => Some(Err(e)),
        None => None,
    }
}

/// `Default::default` of `sled::Batch`: a batch that holds no write.
#[verifier::external_body]
pub(crate) fn batch_new() -> (batch: sled::Batch)
    ensures
        forall|k: Seq<u8>| !(#[trigger] batch_writes(batch).contains_key(k)),
{
    sled::Batch::default()
}

/// `sled::Batch::insert`: the batch now stores `value` under `key`, whatever it
/// held for that key before.
#[verifier::external_body]
pub(crate) fn batch_insert(batch: &mut sled::Batch, key: Vec<u8>, value: Vec<u8>)
    ensures
        batch_writes(*final(batch)) == batch_writes(*old(batch)).insert(key@, Some(value@)),
{
    batch.insert(key, value)
}

/// `sled::Batch::remove`: the batch now removes `key`, whatever it held for that
/// key before.
#[verifier::external_body]
pub(crate) fn batch_remove(batch: &mut sled::Batch, key: Vec<u8>)
    ensures
        batch_writes(*final(batch)) == batch_writes(*old(batch)).insert(key@, None),
{
    batch.remove(key)
}

/// `Display` of `sled::Error`, as a `String`. Nothing is claimed of the text.
#[verifier::external_body]
pub(crate) fn error_text(error: &sled::Error) -> (text: String) {
    format!("{}", error)
}

} // verus!
