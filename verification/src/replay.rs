//! Replaying a whole ledger into the account store.
//!
//! The records are processed in the order in which they arrived, against an
//! index that was built beforehand. Each result is written back under the
//! account's identifier before the next record is looked at.

use crate::client::{accounts, is_fresh_id, Account, Client, ClientMap};
use crate::record::{Record, RecordMap, RecordVec};
use crate::transaction::{applied, lemma_balance_is_kept, process, upsets_balance};
use std::collections::HashMap;
use vstd::prelude::*;

verus! {

/// The largest step that one record can move a balance by.
pub open spec fn max_move() -> int {
    0x8000_0000_0000_0000
}

/// The account that `record` is applied to in `store`: the one under the
/// record's identifier, else one newly opened under `id`.
pub open spec fn account_for(record: Record, store: Map<u16, Account>, id: u16) -> Account {
    if store.contains_key(record.client) {
        store[record.client]
    } else {
        Account::opened(id)
    }
}

/// The store after one more record, whose account goes under `id`.
pub open spec fn store_step(
    store: Map<u16, Account>,
    record: Record,
    index: Map<u32, Record>,
    id: u16,
) -> Map<u16, Account> {
    store.insert(id, applied(account_for(record, store, id), record, index))
}

/// The store after replaying `records` in order, starting with no accounts,
/// where the account of `records[i]` goes under `ids[i]`.
pub open spec fn replayed(records: Seq<Record>, index: Map<u32, Record>, ids: Seq<u16>) -> Map<
    u16,
    Account,
>
    decreases records.len(),
{
    if records.len() == 0 {
        Map::empty()
    } else {
        store_step(
            replayed(records.drop_last(), index, ids.drop_last()),
            records.last(),
            index,
            ids.last(),
        )
    }
}

/// `id` is an identifier that the account of `record` may go under, in a
/// store that uses the identifiers `taken`: the record's own, or a fresh one
/// where the record's is zero.
pub open spec fn is_id_for(record: Record, taken: Set<u16>, id: u16) -> bool {
    if record.client != 0 {
        id == record.client
    } else {
        is_fresh_id(taken, id)
    }
}

/// `ids` names, for every record, an identifier that its account may go
/// under at the time the record is replayed.
pub open spec fn is_assignment(records: Seq<Record>, index: Map<u32, Record>, ids: Seq<u16>) -> bool {
    &&& ids.len() == records.len()
    &&& forall|i: int|
        0 <= i < records.len() ==> is_id_for(
            records[i],
            replayed(records.take(i), index, ids.take(i)).dom(),
            #[trigger] ids[i],
        )
}

/// The identifiers that the records carry.
pub open spec fn named_ids(records: Seq<Record>) -> Seq<u16> {
    Seq::new(records.len(), |i: int| records[i].client)
}

/// Every record carries an identifier.
pub open spec fn all_named(records: Seq<Record>) -> bool {
    forall|i: int| 0 <= i < records.len() ==> (#[trigger] records[i]).client != 0
}

/// Every balance of `account` lies between `-bound` and `bound`.
pub open spec fn is_within(account: Account, bound: int) -> bool {
    &&& -bound <= account.available <= bound
    &&& -bound <= account.held <= bound
    &&& -bound <= account.total <= bound
}

/// Every account of `store` is stored under its own identifier, which is not
/// zero, and has its balances within `bound`.
pub open spec fn is_orderly(store: Map<u16, Account>, bound: int) -> bool {
    forall|id: u16| #[trigger]
        store.contains_key(id) ==> id != 0 && store[id].client == id && is_within(store[id], bound)
}

/// One record moves no balance by more than `max_move()`.
pub proof fn lemma_applied_is_within(
    account: Account,
    record: Record,
    index: Map<u32, Record>,
    bound: int,
)
    requires
        is_within(account, bound),
    ensures
        is_within(applied(account, record, index), bound + max_move()),
        applied(account, record, index).client == account.client,
{
}

/// One step keeps the store orderly, with `max_move()` more room.
pub proof fn lemma_store_step_is_orderly(
    store: Map<u16, Account>,
    record: Record,
    index: Map<u32, Record>,
    id: u16,
    bound: int,
)
    requires
        is_orderly(store, bound),
        bound >= 0,
        is_id_for(record, store.dom(), id),
    ensures
        is_orderly(store_step(store, record, index, id), bound + max_move()),
{
    let account = account_for(record, store, id);
    assert(is_within(account, bound) && account.client == id) by {
        if store.contains_key(record.client) {
            assert(record.client != 0);
        }
    }
    lemma_applied_is_within(account, record, index, bound);
    let after = store_step(store, record, index, id);
    assert forall|other: u16| #[trigger] after.contains_key(other) implies other != 0
        && after[other].client == other && is_within(after[other], bound + max_move()) by {
        if other != id {
            assert(store.contains_key(other));
        }
    }
}

/// Replays `records` in order against `index`, starting with no accounts.
///
/// The account of a record that carries no identifier is opened under a
/// fresh one, drawn at random; so the result is stated for some assignment
/// of identifiers, and for the one assignment there is where every record
/// carries its own.
pub fn replay(records: &RecordVec, index: &RecordMap) -> (clients: ClientMap)
    ensures
        exists|ids: Seq<u16>| #[trigger]
            is_assignment(records@, index@, ids) && accounts(clients@) == replayed(
                records@,
                index@,
                ids,
            ),
        all_named(records@) ==> accounts(clients@) == replayed(
            records@,
            index@,
            named_ids(records@),
        ),
        is_orderly(accounts(clients@), records@.len() * max_move()),
{
    let mut clients: ClientMap = HashMap::new();
    let ghost mut ids: Seq<u16> = Seq::empty();
    let mut i: usize = 0;
    assert(accounts(clients@) == replayed(records@.take(0), index@, ids));
    while i < records.len()
        invariant
            i <= records.len(),
            ids.len() == i,
            is_assignment(records@.take(i as int), index@, ids),
            accounts(clients@) == replayed(records@.take(i as int), index@, ids),
            is_orderly(accounts(clients@), i * max_move()),
            forall|j: int| 0 <= j < i && records@[j].client != 0 ==> ids[j] == records@[j].client,
        decreases records.len() - i,
    {
        let record = &records[i];
        let ghost before = clients@;
        let ghost store = accounts(before);
        proof {
            if before.contains_key(record.client) {
                assert(store.contains_key(record.client));
                lemma_applied_is_within(store[record.client], *record, index@, i * max_move());
            }
        }
        let client = process(record, &clients, index);
        clients.insert(client.client, client);
        proof {
            let id = client.client;
            let ghost_ids = ids.push(id);
            let prefix = records@.take(i + 1);
            assert(store.dom() =~= before.dom());
            assert(prefix.drop_last() == records@.take(i as int));
            assert(ghost_ids.drop_last() == ids);
            assert(is_id_for(*record, store.dom(), id) && client@ == applied(
                account_for(*record, store, id),
                *record,
                index@,
            )) by {
                if before.contains_key(record.client) {
                    assert(store.contains_key(record.client));
                }
            }
            assert(accounts(clients@) == store_step(store, *record, index@, id));
            lemma_store_step_is_orderly(store, *record, index@, id, i * max_move());
            assert forall|j: int| 0 <= j < prefix.len() implies is_id_for(
                prefix[j],
                replayed(prefix.take(j), index@, ghost_ids.take(j)).dom(),
                #[trigger] ghost_ids[j],
            ) by {
                if j < i {
                    assert(prefix.take(j) == records@.take(i as int).take(j));
                    assert(ghost_ids.take(j) == ids.take(j));
                } else {
                    assert(prefix.take(j) == records@.take(i as int));
                    assert(ghost_ids.take(j) == ids);
                }
            }
            ids = ghost_ids;
        }
        i = i + 1;
    }
    proof {
        assert(records@.take(i as int) == records@);
        if all_named(records@) {
            assert(ids == named_ids(records@));
        }
    }
    clients
}

/// No record of the ledger upsets the balance of its account.
pub open spec fn never_upset(records: Seq<Record>, index: Map<u32, Record>) -> bool {
    forall|i: int| 0 <= i < records.len() ==> !upsets_balance(#[trigger] records[i], index)
}

/// In a ledger of which no record upsets a balance, every account is
/// balanced after every record: at each point of the replay, under whatever
/// identifiers the accounts went, `total` is `available` plus `held`.
pub proof fn lemma_replay_keeps_balance(
    records: Seq<Record>,
    index: Map<u32, Record>,
    ids: Seq<u16>,
    point: int,
    id: u16,
)
    requires
        never_upset(records, index),
        ids.len() == records.len(),
        0 <= point <= records.len(),
        replayed(records.take(point), index, ids.take(point)).contains_key(id),
    ensures
        replayed(records.take(point), index, ids.take(point))[id].is_balanced(),
    decreases point,
{
    if point > 0 {
        let prefix = records.take(point);
        let record = records[point - 1];
        let before = replayed(prefix.drop_last(), index, ids.take(point).drop_last());
        let under = ids.take(point).last();
        let account = account_for(record, before, under);
        assert(prefix.drop_last() == records.take(point - 1));
        assert(prefix.last() == record);
        assert(ids.take(point).drop_last() == ids.take(point - 1));
        let earlier = replayed(records.take(point - 1), index, ids.take(point - 1));
        assert(before == earlier);
        if id == under {
            if before.contains_key(record.client) {
                lemma_replay_keeps_balance(records, index, ids, point - 1, record.client);
            }
            lemma_balance_is_kept(account, record, index);
        } else {
            lemma_replay_keeps_balance(records, index, ids, point - 1, id);
        }
    }
}

/// An account, once opened, stays in the store to the end of the replay.
pub proof fn lemma_replay_keeps_accounts(
    records: Seq<Record>,
    index: Map<u32, Record>,
    ids: Seq<u16>,
    point: int,
    id: u16,
)
    requires
        ids.len() == records.len(),
        0 <= point <= records.len(),
        replayed(records.take(point), index, ids.take(point)).contains_key(id),
    ensures
        replayed(records, index, ids).contains_key(id),
    decreases records.len() - point,
{
    if point < records.len() {
        assert(records.take(point + 1).drop_last() == records.take(point));
        assert(ids.take(point + 1).drop_last() == ids.take(point));
        lemma_replay_keeps_accounts(records, index, ids, point + 1, id);
    } else {
        assert(records.take(point) == records);
        assert(ids.take(point) == ids);
    }
}

} // verus!
