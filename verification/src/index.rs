//! The ledger index: the bookings of a ledger by transaction identifier.
//!
//! The index is built in one pass over the whole ledger, before any record
//! is replayed. It holds deposits and withdrawals only, each under its own
//! transaction identifier and with its status; disputes mark the booking
//! they refer to and are not stored themselves.

use crate::record::{Record, RecordMap, RecordVec, Status, Type};
use std::collections::HashMap;
use vstd::prelude::*;

verus! {

/// The ledger as it arrived, together with its index.
#[derive(Clone, Debug)]
pub struct CSV {
    pub records_vec: RecordVec,
    pub records_map: RecordMap,
}

/// The index after one more record.
///
/// A deposit or withdrawal is stored under its transaction identifier, not
/// disputed, in place of what was there. A dispute marks the booking it
/// refers to, where the index holds it. Resolves and chargebacks leave the
/// index as it is.
pub open spec fn index_step(index: Map<u32, Record>, record: Record) -> Map<u32, Record> {
    match record.kind {
        Type::DEPOSIT | Type::WITHDRAWAL => index.insert(
            record.tx,
            Record { status: None, ..record },
        ),
        Type::DISPUTE => if index.contains_key(record.tx) {
            index.insert(
                record.tx,
                Record { status: Some(Status::DISPUTED), ..index[record.tx] },
            )
        } else {
            index
        },
        Type::RESOLVE | Type::CHARGEBACK => index,
    }
}

/// The index of a ledger: `index_step` over its records, first to last.
pub open spec fn index_of(records: Seq<Record>) -> Map<u32, Record>
    decreases records.len(),
{
    if records.len() == 0 {
        Map::empty()
    } else {
        index_step(index_of(records.drop_last()), records.last())
    }
}

impl CSV {
    /// The index is the index of the records.
    pub open spec fn is_indexed(&self) -> bool {
        self.records_map@ == index_of(self.records_vec@)
    }

    /// Keeps the records and builds their index.
    pub fn load(records: RecordVec) -> (csv: CSV)
        ensures
            csv.records_vec@ == records@,
            csv.records_map@ == index_of(records@),
            csv.is_indexed(),
    {
        let mut records_map: RecordMap = HashMap::new();
        let mut i: usize = 0;
        while i < records.len()
            invariant
                i <= records.len(),
                records_map@ == index_of(records@.take(i as int)),
            decreases records.len() - i,
        {
            let record = records[i];
            match record.kind {
                Type::DEPOSIT | Type::WITHDRAWAL => {
                    records_map.insert(record.tx, Record { status: None, ..record });
                },
                Type::DISPUTE => {
                    let booking = match records_map.get(&record.tx) {
                        Some(booking) => Some(*booking),
                        None => None,
                    };
                    match booking {
                        Some(booking) => {
                            records_map.insert(
                                record.tx,
                                Record { status: Some(Status::DISPUTED), ..booking },
                            );
                        },
                        None => {},
                    }
                },
                Type::RESOLVE | Type::CHARGEBACK => {},
            }
            proof {
                assert(records@.take(i + 1).drop_last() == records@.take(i as int));
            }
            i = i + 1;
        }
        proof {
            assert(records@.take(i as int) == records@);
        }
        CSV { records_vec: records, records_map }
    }
}

impl Default for CSV {
    /// The empty ledger with its empty index.
    fn default() -> (csv: CSV)
        ensures
            csv.records_vec@ == Seq::<Record>::empty(),
            csv.records_map@ == Map::<u32, Record>::empty(),
            csv.is_indexed(),
    {
        CSV { records_vec: Vec::new(), records_map: HashMap::new() }
    }
}

/// `record` is a deposit or withdrawal with the transaction identifier `tx`.
pub open spec fn is_booking_of(record: Record, tx: u32) -> bool {
    record.kind.is_booking() && record.tx == tx
}

/// `records[at]` is the last deposit or withdrawal of the ledger with the
/// transaction identifier `tx`.
pub open spec fn is_last_booking(records: Seq<Record>, tx: u32, at: int) -> bool {
    &&& 0 <= at < records.len()
    &&& is_booking_of(records[at], tx)
    &&& forall|later: int|
        at < later < records.len() ==> !is_booking_of(#[trigger] records[later], tx)
}

/// A dispute of `tx` stands somewhere behind `records[at]`.
pub open spec fn is_disputed_after(records: Seq<Record>, tx: u32, at: int) -> bool {
    exists|later: int|
        at < later < records.len() && (#[trigger] records[later]).kind == Type::DISPUTE
            && records[later].tx == tx
}

/// Every entry of the index is a deposit or withdrawal, stored under its own
/// transaction identifier, and either not marked or marked as disputed.
pub proof fn lemma_index_holds_bookings(records: Seq<Record>, tx: u32)
    requires
        index_of(records).contains_key(tx),
    ensures
        index_of(records)[tx].tx == tx,
        index_of(records)[tx].kind.is_booking(),
        index_of(records)[tx].status is None || index_of(records)[tx].is_disputed(),
    decreases records.len(),
{
    if records.len() > 0 {
        let earlier = index_of(records.drop_last());
        if earlier.contains_key(tx) {
            lemma_index_holds_bookings(records.drop_last(), tx);
        }
    }
}

/// The index holds no entry for a transaction identifier that no deposit or
/// withdrawal of the ledger has.
pub proof fn lemma_index_lacks_unbooked(records: Seq<Record>, tx: u32)
    requires
        forall|i: int| 0 <= i < records.len() ==> !is_booking_of(#[trigger] records[i], tx),
    ensures
        !index_of(records).contains_key(tx),
    decreases records.len(),
{
    if records.len() > 0 {
        let front = records.drop_last();
        assert forall|i: int| 0 <= i < front.len() implies !is_booking_of(
            #[trigger] front[i],
            tx,
        ) by {
            assert(front[i] == records[i]);
        }
        lemma_index_lacks_unbooked(front, tx);
        assert(!is_booking_of(records[records.len() - 1], tx));
    }
}

/// The entry of the index for `tx` is the last deposit or withdrawal of the
/// ledger with that identifier, marked as disputed where a dispute of `tx`
/// stands behind it and not marked otherwise.
pub proof fn lemma_index_holds_last_booking(records: Seq<Record>, tx: u32, at: int)
    requires
        is_last_booking(records, tx, at),
    ensures
        index_of(records).contains_key(tx),
        index_of(records)[tx] == (Record {
            status: if is_disputed_after(records, tx, at) {
                Some(Status::DISPUTED)
            } else {
                None
            },
            ..records[at]
        }),
    decreases records.len(),
{
    let front = records.drop_last();
    let last = records.last();
    if at == records.len() - 1 {
        assert(!is_disputed_after(records, tx, at));
    } else {
        assert(!is_booking_of(records[records.len() - 1], tx));
        assert forall|later: int| at < later < front.len() implies !is_booking_of(
            #[trigger] front[later],
            tx,
        ) by {
            assert(front[later] == records[later]);
        }
        assert(front[at] == records[at]);
        lemma_index_holds_last_booking(front, tx, at);
        if is_disputed_after(front, tx, at) {
            let witness = choose|later: int|
                at < later < front.len() && (#[trigger] front[later]).kind == Type::DISPUTE
                    && front[later].tx == tx;
            assert(records[witness] == front[witness]);
            assert(is_disputed_after(records, tx, at));
        } else if last.kind == Type::DISPUTE && last.tx == tx {
            assert(records[records.len() - 1] == last);
            assert(is_disputed_after(records, tx, at));
        } else {
            assert forall|later: int| at < later < records.len() implies !((
            #[trigger] records[later]).kind == Type::DISPUTE && records[later].tx == tx) by {
                if later < front.len() {
                    assert(front[later] == records[later]);
                }
            }
        }
    }
}

} // verus!
