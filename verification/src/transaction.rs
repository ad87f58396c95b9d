//! The rules: what each kind of record does to the account it names.
//!
//! Every rule is a spec function from the account before to the account
//! after, over mathematical integers; the executable function beside it
//! computes exactly that. A record that a rule cannot apply changes nothing.

use crate::client::{is_account_for, Account, Client, ClientMap};
use crate::record::{Record, RecordMap, Status, Type};
use vstd::prelude::*;

verus! {

/// The index holds the booking that `record` refers to, and that booking
/// carries an amount.
pub open spec fn refers_to_amount(record: Record, index: Map<u32, Record>) -> bool {
    index.contains_key(record.tx) && index[record.tx].amount is Some
}

/// As `refers_to_amount`, and the index marks the booking as under dispute.
pub open spec fn refers_to_disputed(record: Record, index: Map<u32, Record>) -> bool {
    refers_to_amount(record, index) && index[record.tx].is_disputed()
}

/// A deposit: the amount is added to `available` and to `total`.
pub open spec fn deposited(account: Account, record: Record) -> Account {
    match record.amount {
        Some(amount) => Account {
            available: account.available + amount,
            total: account.total + amount,
            ..account
        },
        None => account,
    }
}

/// A withdrawal: the amount leaves `available` and `total`, but only where
/// strictly more than the amount is available.
pub open spec fn withdrawn(account: Account, record: Record) -> Account {
    match record.amount {
        Some(amount) if account.available > amount => Account {
            available: account.available - amount,
            total: account.total - amount,
            ..account
        },
        _ => account,
    }
}

/// A dispute of the booking that `record` refers to.
///
/// Where the index holds the booking with an amount, the amount is added to
/// `held`; a disputed deposit also leaves `available`, a disputed withdrawal
/// does not.
pub open spec fn disputed(account: Account, record: Record, index: Map<u32, Record>) -> Account {
    if refers_to_amount(record, index) {
        let booking = index[record.tx];
        let amount = booking.amount_or_zero();
        Account {
            available: if booking.kind == Type::DEPOSIT {
                account.available - amount
            } else {
                account.available
            },
            held: account.held + amount,
            ..account
        }
    } else {
        account
    }
}

/// A resolve of the booking that `record` refers to.
///
/// Where the booking is under dispute and has an amount, the amount leaves
/// `held`; a resolved deposit also comes back to `available`, a resolved
/// withdrawal does not.
pub open spec fn resolved(account: Account, record: Record, index: Map<u32, Record>) -> Account {
    if refers_to_disputed(record, index) {
        let booking = index[record.tx];
        let amount = booking.amount_or_zero();
        Account {
            available: if booking.kind == Type::DEPOSIT {
                account.available + amount
            } else {
                account.available
            },
            held: account.held - amount,
            ..account
        }
    } else {
        account
    }
}

/// A chargeback of the booking that `record` refers to.
///
/// Where the booking is under dispute and has an amount, the amount leaves
/// `held` and the account is locked; a charged-back deposit also leaves
/// `total`, a charged-back withdrawal comes back to `total` and `available`.
pub open spec fn charged_back(account: Account, record: Record, index: Map<u32, Record>) -> Account {
    if refers_to_disputed(record, index) {
        let booking = index[record.tx];
        let amount = booking.amount_or_zero();
        Account {
            client: account.client,
            available: if booking.kind == Type::WITHDRAWAL {
                account.available + amount
            } else {
                account.available
            },
            held: account.held - amount,
            total: if booking.kind == Type::DEPOSIT {
                account.total - amount
            } else if booking.kind == Type::WITHDRAWAL {
                account.total + amount
            } else {
                account.total
            },
            locked: true,
        }
    } else {
        account
    }
}

/// What `record` does to `account`: the rule of the record's kind.
pub open spec fn applied(account: Account, record: Record, index: Map<u32, Record>) -> Account {
    match record.kind {
        Type::DEPOSIT => deposited(account, record),
        Type::WITHDRAWAL => withdrawn(account, record),
        Type::DISPUTE => disputed(account, record, index),
        Type::RESOLVE => resolved(account, record, index),
        Type::CHARGEBACK => charged_back(account, record, index),
    }
}

/// Processes one record: finds the account it names, or opens one, and
/// applies the record to it. The account store is not written to; the result
/// is the account to store under its identifier.
///
/// An account that the store holds must have room for the result. A newly
/// opened account always has.
pub fn process(record: &Record, clients: &ClientMap, records: &RecordMap) -> (result: Client)
    requires
        clients@.contains_key(record.client) ==> applied(
            clients@[record.client]@,
            *record,
            records@,
        ).representable(),
    ensures
        exists|client: Client|
            is_account_for(*record, clients@, client) && result@ == #[trigger] applied(
                client@,
                *record,
                records@,
            ),
        clients@.contains_key(record.client) ==> result@ == applied(
            clients@[record.client]@,
            *record,
            records@,
        ),
        !clients@.contains_key(record.client) && record.client != 0 ==> result@ == applied(
            Account::opened(record.client),
            *record,
            records@,
        ),
        record.kind.is_dispute_family() && !records@.contains_key(record.tx) ==> is_account_for(
            *record,
            clients@,
            result,
        ),
{
    let client = Client::find(record, clients);
    apply(record, client, records)
}

/// Applies `record` to `client` by the rule of the record's kind.
///
/// A dispute, resolve or chargeback that refers to a transaction which the
/// index does not hold leaves the account as it is.
pub fn apply(record: &Record, client: Client, records: &RecordMap) -> (result: Client)
    requires
        applied(client@, *record, records@).representable(),
    ensures
        result@ == applied(client@, *record, records@),
        record.kind.is_dispute_family() && !records@.contains_key(record.tx) ==> result == client,
{
    match record.kind {
        Type::DEPOSIT => deposit(record, client),
        Type::WITHDRAWAL => withdrawal(record, client),
        Type::DISPUTE => dispute(record, client, records),
        Type::RESOLVE => resolve(record, client, records),
        Type::CHARGEBACK => chargeback(record, client, records),
    }
}

/// Applies a chargeback record to `client`.
pub fn chargeback(record: &Record, client: Client, records: &RecordMap) -> (result: Client)
    requires
        charged_back(client@, *record, records@).representable(),
    ensures
        result@ == charged_back(client@, *record, records@),
        !refers_to_disputed(*record, records@) ==> result == client,
{
    let tx = match records.get(&record.tx) {
        Some(tx) => tx,
        None => return client,
    };
    match tx.status {
        Some(Status::DISPUTED) => {},
        _ => return client,
    }
    let amount: i128 = match tx.amount {
        Some(amount) => amount as i128,
        None => return client,
    };
    let mut result = client;
    result.held = result.held - amount;
    match tx.kind {
        Type::DEPOSIT => {
            result.total = result.total - amount;
        },
        Type::WITHDRAWAL => {
            result.total = result.total + amount;
            result.available = result.available + amount;
        },
        _ => {},
    }
    result.locked = true;
    result
}

/// Applies a resolve record to `client`.
pub fn resolve(record: &Record, client: Client, records: &RecordMap) -> (result: Client)
    requires
        resolved(client@, *record, records@).representable(),
    ensures
        result@ == resolved(client@, *record, records@),
        !refers_to_disputed(*record, records@) ==> result == client,
{
    let tx = match records.get(&record.tx) {
        Some(tx) => tx,
        None => return client,
    };
    match tx.status {
        Some(Status::DISPUTED) => {},
        _ => return client,
    }
    let amount: i128 = match tx.amount {
        Some(amount) => amount as i128,
        None => return client,
    };
    let mut result = client;
    result.held = result.held - amount;
    match tx.kind {
        Type::DEPOSIT => {
            result.available = result.available + amount;
        },
        _ => {},
    }
    result
}

/// Applies a dispute record to `client`.
pub fn dispute(record: &Record, client: Client, records: &RecordMap) -> (result: Client)
    requires
        disputed(client@, *record, records@).representable(),
    ensures
        result@ == disputed(client@, *record, records@),
        !refers_to_amount(*record, records@) ==> result == client,
{
    let tx = match records.get(&record.tx) {
        Some(tx) => tx,
        None => return client,
    };
    let amount: i128 = match tx.amount {
        Some(amount) => amount as i128,
        None => return client,
    };
    let mut result = client;
    match tx.kind {
        Type::DEPOSIT => {
            result.available = result.available - amount;
        },
        _ => {},
    }
    result.held = result.held + amount;
    result
}

/// Applies a withdrawal record to `client`.
///
/// A withdrawal of exactly what is available is not carried out.
pub fn withdrawal(record: &Record, client: Client) -> (result: Client)
    requires
        withdrawn(client@, *record).representable(),
    ensures
        result@ == withdrawn(client@, *record),
        record.amount is None ==> result == client,
        record.amount is Some && client.available <= record.amount->Some_0 ==> result == client,
{
    let amount: i128 = match record.amount {
        Some(amount) => amount as i128,
        None => return client,
    };
    let mut result = client;
    if result.available > amount {
        result.available = result.available - amount;
        result.total = result.total - amount;
    }
    result
}

/// Applies a deposit record to `client`.
pub fn deposit(record: &Record, client: Client) -> (result: Client)
    requires
        deposited(client@, *record).representable(),
    ensures
        result@ == deposited(client@, *record),
        record.amount is None ==> result == client,
{
    let amount: i128 = match record.amount {
        Some(amount) => amount as i128,
        None => return client,
    };
    let mut result = client;
    result.available = result.available + amount;
    result.total = result.total + amount;
    result
}

/// `record` upsets the balance of the account it is applied to: it is a
/// dispute, resolve or chargeback that takes effect on a booking which is no
/// deposit, with an amount other than zero. Such a record moves `held`
/// without moving `available` and `total` to match.
pub open spec fn upsets_balance(record: Record, index: Map<u32, Record>) -> bool {
    &&& match record.kind {
        Type::DISPUTE => refers_to_amount(record, index),
        Type::RESOLVE | Type::CHARGEBACK => refers_to_disputed(record, index),
        Type::DEPOSIT | Type::WITHDRAWAL => false,
    }
    &&& index[record.tx].kind != Type::DEPOSIT
    &&& index[record.tx].amount_or_zero() != 0
}

/// A balanced account stays balanced under every record but those that
/// `upsets_balance` names, and under those it does not.
pub proof fn lemma_balance_is_kept(account: Account, record: Record, index: Map<u32, Record>)
    requires
        account.is_balanced(),
    ensures
        applied(account, record, index).is_balanced() <==> !upsets_balance(record, index),
{
}

/// A dispute, resolve or chargeback that refers to a transaction which the
/// index does not hold leaves the account as it is, however often it is
/// applied.
pub proof fn lemma_unknown_reference_changes_nothing(
    account: Account,
    record: Record,
    index: Map<u32, Record>,
)
    requires
        record.kind.is_dispute_family(),
        !index.contains_key(record.tx),
    ensures
        applied(account, record, index) == account,
        applied(applied(account, record, index), record, index) == account,
{
}

/// A withdrawal of exactly what is available is not carried out.
pub proof fn lemma_withdrawal_of_all_is_refused(account: Account, record: Record)
    requires
        record.amount is Some,
        record.amount_or_zero() == account.available,
    ensures
        withdrawn(account, record) == account,
{
}

/// A withdrawal under dispute: the dispute adds the amount to `held` and
/// leaves `available` alone; a resolve takes it out of `held` and gives
/// nothing back to `available`; a chargeback takes it out of `held`, gives it
/// back to `available` and `total`, and locks the account.
pub proof fn lemma_withdrawal_under_dispute(
    account: Account,
    record: Record,
    index: Map<u32, Record>,
)
    requires
        index.contains_key(record.tx),
        index[record.tx].kind == Type::WITHDRAWAL,
        index[record.tx].amount is Some,
    ensures
        disputed(account, record, index) == (Account {
            held: account.held + index[record.tx].amount_or_zero(),
            ..account
        }),
        index[record.tx].is_disputed() ==> resolved(account, record, index) == (Account {
            held: account.held - index[record.tx].amount_or_zero(),
            ..account
        }),
        index[record.tx].is_disputed() ==> charged_back(account, record, index) == (Account {
            client: account.client,
            available: account.available + index[record.tx].amount_or_zero(),
            held: account.held - index[record.tx].amount_or_zero(),
            total: account.total + index[record.tx].amount_or_zero(),
            locked: true,
        }),
{
}

/// A deposit under dispute: the dispute moves the amount from `available` to
/// `held`; a resolve moves it back; a chargeback takes it out of `held` and
/// `total` and locks the account.
pub proof fn lemma_deposit_under_dispute(account: Account, record: Record, index: Map<u32, Record>)
    requires
        index.contains_key(record.tx),
        index[record.tx].kind == Type::DEPOSIT,
        index[record.tx].amount is Some,
    ensures
        disputed(account, record, index) == (Account {
            available: account.available - index[record.tx].amount_or_zero(),
            held: account.held + index[record.tx].amount_or_zero(),
            ..account
        }),
        index[record.tx].is_disputed() ==> resolved(account, record, index) == (Account {
            available: account.available + index[record.tx].amount_or_zero(),
            held: account.held - index[record.tx].amount_or_zero(),
            ..account
        }),
        index[record.tx].is_disputed() ==> charged_back(account, record, index) == (Account {
            client: account.client,
            available: account.available,
            held: account.held - index[record.tx].amount_or_zero(),
            total: account.total - index[record.tx].amount_or_zero(),
            locked: true,
        }),
{
}

/// No record changes the identifier of the account, and none but a
/// chargeback that takes effect changes whether it is locked.
pub proof fn lemma_applied_keeps_identity(account: Account, record: Record, index: Map<u32, Record>)
    ensures
        applied(account, record, index).client == account.client,
        applied(account, record, index).locked == (account.locked || (record.kind
            == Type::CHARGEBACK && refers_to_disputed(record, index))),
{
}

} // verus!
