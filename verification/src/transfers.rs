//! The transfer log: an append-only, per-account history of completed
//! transfers, with offset/count pagination. A transfer is recorded in both
//! the sender's and the recipient's log scope.

use vstd::prelude::*;
use crate::bytes::{bytes_eq, copy_bytes};
use crate::store::{find, lemma_find_push, lemma_find_skip, lemma_find_update, Entry, Store};

verus! {

/// One completed transfer, immutable once written.
pub struct TransferRecord {
    pub from: Vec<u8>,
    pub to: Vec<u8>,
    pub amount: u128,
    pub symbol: String,
}

/// The mathematical shape of a record: identifiers and symbol as sequences.
pub ghost struct RecordView {
    pub from: Seq<u8>,
    pub to: Seq<u8>,
    pub amount: u128,
    pub symbol: Seq<char>,
}

impl View for TransferRecord {
    type V = RecordView;

    open spec fn view(&self) -> RecordView {
        RecordView { from: self.from@, to: self.to@, amount: self.amount, symbol: self.symbol@ }
    }
}

pub open spec fn views_of(s: Seq<TransferRecord>) -> Seq<RecordView> {
    s.map_values(|r: TransferRecord| r@)
}

/// One account's history, oldest first; empty when the account never took
/// part in a transfer.
pub open spec fn log_in(store: Store<Vec<TransferRecord>>, a: Seq<u8>) -> Seq<RecordView> {
    match find(store.entries@, a) {
        Some(v) => views_of(v@),
        None => Seq::empty(),
    }
}

/// An owned copy of a record.
pub fn clone_record(r: &TransferRecord) -> (c: TransferRecord)
    ensures
        c@ == r@,
{
    TransferRecord {
        from: copy_bytes(&r.from),
        to: copy_bytes(&r.to),
        amount: r.amount,
        symbol: r.symbol.clone(),
    }
}

/// Appends one record to the end of `account`'s log, leaving every other
/// account's log unchanged.
pub fn append_record(store: &mut Store<Vec<TransferRecord>>, account: &Vec<u8>, rec: TransferRecord)
    requires
        old(store).wf(),
    ensures
        final(store).wf(),
        forall|b: Seq<u8>|
            log_in(*final(store), b) == (if b == account@ {
                log_in(*old(store), b).push(rec@)
            } else {
                log_in(*old(store), b)
            }),
{
    let ghost s0 = store.entries@;
    let ghost rv = rec@;
    let n = store.entries.len();
    let mut i: usize = 0;
    while i < n
        invariant
            n == store.entries@.len(),
            i <= n,
            store.entries@ == s0,
            s0 == old(store).entries@,
            rv == rec@,
            crate::store::keys_unique(s0),
            forall|j: int| 0 <= j < i ==> s0[j].key@ != account@,
        decreases n - i,
    {
        if bytes_eq(&store.entries[i].key, account) {
            proof {
                lemma_find_skip(s0, account@, i as int);
                assert(s0.skip(i as int)[0] == s0[i as int]);
                assert(find(s0, account@) == Some(s0[i as int].val));
            }
            let mut e = store.entries.remove(i);
            let ghost old_records = e.val@;
            e.val.push(rec);
            let ghost new_records = e.val@;
            proof {
                assert(new_records == old_records.push(new_records.last()));
                assert(new_records.last()@ == rv);
            }
            store.entries.insert(i, e);
            proof {
                assert(store.entries@ =~= s0.update(i as int, store.entries@[i as int]));
                lemma_find_update(s0, i as int, store.entries@[i as int]);
                assert(store.entries@[i as int].val@ == new_records);
                assert forall|k: int|
                    0 <= k < new_records.len() implies views_of(new_records)[k] == views_of(
                    old_records,
                ).push(rv)[k] by {
                    if k < old_records.len() {
                        assert(new_records[k] == old_records[k]);
                    } else {
                        assert(new_records[k] == new_records.last());
                    }
                }
                assert(views_of(new_records) =~= views_of(old_records).push(rv));
                assert forall|b: Seq<u8>|
                    log_in(*store, b) == (if b == account@ {
                        log_in(*old(store), b).push(rv)
                    } else {
                        log_in(*old(store), b)
                    }) by {
                    assert(find(store.entries@, b) == (if b == account@ {
                        Some(store.entries@[i as int].val)
                    } else {
                        find(s0, b)
                    }));
                }
            }
            return;
        }
        i += 1;
    }
    proof {
        lemma_find_skip(s0, account@, n as int);
    }
    let mut v: Vec<TransferRecord> = Vec::new();
    v.push(rec);
    store.entries.push(Entry { key: copy_bytes(account), val: v });
    proof {
        lemma_find_push(s0, store.entries@.last());
        assert(views_of(store.entries@.last().val@) =~= Seq::<RecordView>::empty().push(rv));
        assert forall|b: Seq<u8>|
            log_in(*store, b) == (if b == account@ {
                log_in(*old(store), b).push(rv)
            } else {
                log_in(*old(store), b)
            }) by {
            assert(find(store.entries@, b) == (if b == account@ {
                Some(store.entries@.last().val)
            } else {
                find(s0, b)
            }));
        }
    }
}

/// The page `[start, start + count)` of a log: exactly that slice, shorter
/// when the log ends sooner, and empty when `start` is at or past the end.
pub open spec fn page_of(log: Seq<RecordView>, start: int, count: int) -> Seq<RecordView> {
    let lo = if start <= log.len() {
        start
    } else {
        log.len() as int
    };
    let hi = if start + count <= log.len() {
        start + count
    } else {
        log.len() as int
    };
    log.subrange(lo, hi)
}

/// The paginated read: the slice `[start, start + count)` of the account's
/// log, oldest first.
pub fn read_transfers(
    store: &Store<Vec<TransferRecord>>,
    account: &Vec<u8>,
    start: u32,
    count: u32,
) -> (r: Vec<TransferRecord>)
    ensures
        views_of(r@) == page_of(log_in(*store, account@), start as int, count as int),
{
    let ghost log = log_in(*store, account@);
    let mut out: Vec<TransferRecord> = Vec::new();
    match store.get(account) {
        None => {
            proof {
                assert(views_of(out@) =~= log.subrange(0, 0));
                assert(views_of(out@) == page_of(log, start as int, count as int));
            }
            out
        },
        Some(records) => {
            let len = records.len();
            let lo = if (start as usize) <= len {
                start as usize
            } else {
                len
            };
            let room = len - lo;
            let take = if (count as usize) <= room {
                count as usize
            } else {
                room
            };
            let mut j: usize = 0;
            while j < take
                invariant
                    log == views_of(records@),
                    lo + take <= records@.len(),
                    records@.len() <= usize::MAX,
                    j <= take,
                    views_of(out@) =~= log.subrange(lo as int, lo + j),
                decreases take - j,
            {
                let ghost prev = out@;
                out.push(clone_record(&records[lo + j]));
                proof {
                    assert forall|k: int|
                        0 <= k < prev.len() + 1 implies views_of(out@)[k] == views_of(prev).push(
                        out@.last()@,
                    )[k] by {
                        if k < prev.len() {
                            assert(out@[k] == prev[k]);
                        }
                    }
                    assert(views_of(out@) =~= views_of(prev).push(out@.last()@));
                    assert(out@.last()@ == log[lo + j]);
                    assert(log.subrange(lo as int, lo + j + 1) =~= log.subrange(
                        lo as int,
                        lo + j,
                    ).push(log[lo + j]));
                    assert(views_of(out@) =~= log.subrange(lo as int, lo + j + 1));
                }
                j += 1;
            }
            proof {
                let lo_s = if (start as int) <= log.len() {
                    start as int
                } else {
                    log.len() as int
                };
                let hi_s = if (start as int + count as int) <= log.len() {
                    start as int + count as int
                } else {
                    log.len() as int
                };
                assert(lo as int == lo_s);
                assert(lo + take == hi_s);
                assert(views_of(out@) == page_of(log, start as int, count as int));
            }
            out
        },
    }
}

} // verus!
