use vstd::prelude::*;
use crate::engine::{db_entries, db_iter, db_range_from, db_range_through, db_scan_prefix};
use crate::engine::{Scan, iter_next, iter_pending};
use crate::order::{Entry, ScanPlan, Span, is_scan, lemma_reverse_of_scan};
use vstd::slice::slice_to_vec;

verus! {

/// The direction in which a scan walks the keys.
#[derive(Clone, Copy, Debug, PartialEq, Eq, Structural)]
pub enum Direction {
    /// From lesser keys to greater ones.
    Forward,
    /// From greater keys to lesser ones.
    Reverse,
}

/// Where a scan over encoded keys starts, and which way it goes.
#[derive(Clone, Debug)]
pub enum IteratorMode {
    /// From the least key, ascending.
    Start,
    /// From the greatest key, descending.
    End,
    /// From the given key: ascending over the keys at or after it, or descending
    /// over the keys at or before it.
    From(Vec<u8>, Direction),
    /// Over the keys that begin with the given bytes, ascending.
    Prefix(Vec<u8>),
}

impl IteratorMode {
    /// What a scan in this mode is asked for.
    pub open spec fn plan(self) -> ScanPlan {
        match self {
            IteratorMode::Start => ScanPlan { span: Span::All, descending: false },
            IteratorMode::End => ScanPlan { span: Span::All, descending: true },
            IteratorMode::From(key, Direction::Forward) => ScanPlan {
                span: Span::AtLeast(key@),
                descending: false,
            },
            IteratorMode::From(key, Direction::Reverse) => ScanPlan {
                span: Span::AtMost(key@),
                descending: true,
            },
            IteratorMode::Prefix(prefix) => ScanPlan {
                span: Span::Prefix(prefix@),
                descending: false,
            },
        }
    }

    /// Whether a scan in this mode hands out greater keys first.
    pub fn is_descending(&self) -> (r: bool)
        ensures
            r == self.plan().descending,
    {
        match self {
            IteratorMode::End => true,
            IteratorMode::From(_, Direction::Reverse) => true,
            _ => false,
        }
    }
}

/// How far a scan has come.
enum Progress {
    /// Entries may still come.
    Running,
    /// The last entry has been handed out.
    Exhausted,
    /// The engine reported an error, which ended the scan.
    Failed,
}

/// The entries that a vector of encoded pairs holds, as byte sequences.
spec fn entries_of(held: Seq<(Vec<u8>, Vec<u8>)>) -> Seq<Entry> {
    Seq::new(held.len(), |i: int| (held[i].0@, held[i].1@))
}

/// A scan over the encoded entries of a store, one entry per call of `next`.
///
/// An ascending scan reads the store step by step. A descending scan reads the
/// entries of its range when it is made, keys ascending, and hands them out from
/// the last: the engine is never stepped backwards. An error that the engine
/// reports while a descending scan is made is kept, and the first call of `next`
/// reports it.
///
/// The scan keeps the store borrowed and cannot outlive it, so nothing is written
/// through the store while the scan lives. The engine's own scan is a moving view:
/// what is said here of the entries to come holds while no other handle of the same
/// database writes to it. The seek key of the mode is held as bytes; no key is
/// encoded during the scan.
pub struct DBIterator<'a> {
    mode: IteratorMode,
    /// The engine's scan, with the borrow of the store.
    inner: Scan<'a>,
    /// Of a descending scan: the entries yet to come, keys ascending.
    held: Vec<(Vec<u8>, Vec<u8>)>,
    /// Of a descending scan: the error that cut the reading of its entries short.
    broken: Option<sled::Error>,
    /// Of a descending scan that was cut short: the entries that it was to hand out.
    owed: Ghost<Seq<Entry>>,
    progress: Progress,
}

impl<'a> DBIterator<'a> {
    /// What the scan was asked for.
    pub closed spec fn plan(&self) -> ScanPlan {
        self.mode.plan()
    }

    /// The entries that the scan has yet to hand out, in the order in which they will come.
    pub closed spec fn pending(&self) -> Seq<Entry> {
        if !(self.progress is Running) {
            Seq::empty()
        } else if !self.mode.plan().descending {
            iter_pending(self.inner.iter)
        } else if self.broken is Some {
            self.owed@
        } else {
            entries_of(self.held@).reverse()
        }
    }

    /// Whether an error of the engine has ended the scan.
    pub closed spec fn failed(&self) -> bool {
        self.progress is Failed
    }

    /// Starts a scan of `raw` in the given mode.
    pub(crate) fn new(raw: &'a sled::Db, mode: IteratorMode) -> (it: Self)
        ensures
            it.plan() == mode.plan(),
            !it.failed(),
            is_scan(it.pending(), db_entries(*raw), mode.plan()),
    {
        let mut inner = match &mode {
            IteratorMode::Start => db_iter(raw),
            IteratorMode::End => db_iter(raw),
            IteratorMode::From(key, Direction::Forward) => db_range_from(raw, key.as_slice()),
            IteratorMode::From(key, Direction::Reverse) => db_range_through(raw, key.as_slice()),
            IteratorMode::Prefix(prefix) => db_scan_prefix(raw, prefix.as_slice()),
        };
        let ghost listing = iter_pending(inner.iter);
        let mut held: Vec<(Vec<u8>, Vec<u8>)> = Vec::new();
        let mut broken: Option<sled::Error> = None;
        if mode.is_descending() {
            proof {
                lemma_reverse_of_scan(
                    listing,
                    db_entries(*raw),
                    ScanPlan { span: mode.plan().span, descending: false },
                );
                assert(entries_of(held@) + iter_pending(inner.iter) =~= listing);
            }
            loop
                invariant_except_break
                    entries_of(held@) + iter_pending(inner.iter) == listing,
                    broken is None,
                ensures
                    broken is None ==> entries_of(held@) == listing,
                decreases iter_pending(inner.iter).len(),
            {
                let ghost before = iter_pending(inner.iter);
                let ghost had = entries_of(held@);
                match iter_next(&mut inner.iter) {
                    Some(Ok(entry)) => {
                        held.push(entry);
                        assert(entries_of(held@) =~= had.push(before.first()));
                        assert(had.push(before.first()) + before.drop_first() =~= had + before);
                    },
                    Some(Err(error)) => {
                        broken = Some(error);
                        break ;
                    },
                    None => {
                        assert(had + before =~= had);
                        break ;
                    },
                }
            }
        }
        DBIterator {
            mode,
            inner,
            held,
            broken,
            owed: Ghost(listing.reverse()),
            progress: Progress::Running,
        }
    }

    /// Whether an error of the engine has ended the scan.
    pub fn has_failed(&self) -> (r: bool)
        ensures
            r == self.failed(),
    {
        match self.progress {
            Progress::Failed => true,
            _ => false,
        }
    }

    /// Hands out the next entry of the scan.
    ///
    /// `None` means that the scan is over: every entry has come, or an earlier call
    /// reported an error of the engine. An error ends the scan.
    pub fn next(&mut self) -> (r: Option<Result<(Vec<u8>, Vec<u8>), sled::Error>>)
        ensures
            final(self).plan() == old(self).plan(),
            match r {
                Some(Ok(kv)) => {
                    &&& old(self).pending().len() > 0
                    &&& (kv.0@, kv.1@) == old(self).pending().first()
                    &&& final(self).pending() == old(self).pending().drop_first()
                    &&& !old(self).failed()
                    &&& !final(self).failed()
                },
                Some(Err(_)) => final(self).failed() && final(self).pending().len() == 0,
                None => {
                    &&& old(self).pending().len() == 0
                    &&& final(self).pending().len() == 0
                    &&& final(self).failed() == old(self).failed()
                },
            },
    {
        match self.progress {
            Progress::Running => {},
            _ => {
                return None;
            },
        }
        if self.mode.is_descending() {
            match self.broken.take() {
                Some(error) => {
                    self.progress = Progress::Failed;
                    Some(Err(error))
                },
                None => {
                    let ghost had = entries_of(self.held@);
                    match self.held.pop() {
                        Some(entry) => {
                            proof {
                                assert(had.reverse().first() == had.last());
                                assert(entries_of(self.held@) =~= had.drop_last());
                                assert(had.drop_last().reverse() =~= had.reverse().drop_first());
                            }
                            Some(Ok(entry))
                        },
                        None => {
                            self.progress = Progress::Exhausted;
                            None
                        },
                    }
                },
            }
        } else {
            match iter_next(&mut self.inner.iter) {
                Some(Ok(entry)) => Some(Ok(entry)),
                Some(Err(error)) => {
                    self.progress = Progress::Failed;
                    Some(Err(error))
                },
                None => {
                    self.progress = Progress::Exhausted;
                    None
                },
            }
        }
    }
}

/// A store whose encoded entries can be scanned.
pub trait DBIterationHandler {
    /// The encoded entries of the store.
    spec fn stored(&self) -> Map<Seq<u8>, Seq<u8>>;

    /// Starts a scan in the given mode.
    fn iterator(&self, mode: IteratorMode) -> (it: DBIterator<'_>)
        ensures
            it.plan() == mode.plan(),
            !it.failed(),
            is_scan(it.pending(), self.stored(), mode.plan()),
    ;

    /// Starts an ascending scan over the entries whose key begins with `prefix`.
    fn scan_prefix_iterator(&self, prefix: &[u8]) -> (it: DBIterator<'_>)
        ensures
            it.plan() == (ScanPlan { span: Span::Prefix(prefix@), descending: false }),
            !it.failed(),
            is_scan(it.pending(), self.stored(), it.plan()),
    ;
}

impl DBIterationHandler for sled::Db {
    open spec fn stored(&self) -> Map<Seq<u8>, Seq<u8>> {
        db_entries(*self)
    }

    fn iterator(&self, mode: IteratorMode) -> (it: DBIterator<'_>) {
        DBIterator::new(self, mode)
    }

    fn scan_prefix_iterator(&self, prefix: &[u8]) -> (it: DBIterator<'_>) {
        DBIterator::new(self, IteratorMode::Prefix(slice_to_vec(prefix)))
    }
}

} // verus!
