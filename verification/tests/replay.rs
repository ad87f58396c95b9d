use ledger_replay::client::{Client, ClientMap};
use ledger_replay::index::CSV;
use ledger_replay::record::{Record, RecordMap, Type};
use ledger_replay::replay::replay;
use std::collections::HashMap;

fn line(kind: Type, client: u16, tx: u32, amount: Option<i64>) -> Record {
    Record { kind, client, tx, amount, status: None }
}

fn run(records: Vec<Record>) -> ClientMap {
    let csv = CSV::load(records);
    replay(&csv.records_vec, &csv.records_map)
}

fn state(client: u16, available: i128, held: i128, total: i128, locked: bool) -> Client {
    Client { client, available, held, total, locked }
}

#[test]
fn replay_of_nothing_gives_no_accounts() {
    assert!(run(Vec::new()).is_empty());
}

#[test]
fn replay_books_each_account_under_its_identifier() {
    let clients = run(vec![
        line(Type::DEPOSIT, 1, 1, Some(10)),
        line(Type::DEPOSIT, 2, 2, Some(20)),
        line(Type::WITHDRAWAL, 1, 3, Some(2)),
        line(Type::WITHDRAWAL, 2, 4, Some(20)),
    ]);
    assert_eq!(clients.len(), 2);
    assert_eq!(clients[&1], state(1, 8, 0, 8, false));
    assert_eq!(clients[&2], state(2, 20, 0, 20, false));
}

#[test]
fn replay_disputes_and_resolves_a_deposit() {
    let clients = run(vec![
        line(Type::DEPOSIT, 1, 1, Some(10)),
        line(Type::DEPOSIT, 1, 2, Some(2)),
        line(Type::DISPUTE, 1, 2, None),
        line(Type::RESOLVE, 1, 2, None),
    ]);
    assert_eq!(clients[&1], state(1, 12, 0, 12, false));
}

#[test]
fn replay_charges_back_a_deposit() {
    let clients = run(vec![
        line(Type::DEPOSIT, 1, 1, Some(10)),
        line(Type::DEPOSIT, 1, 2, Some(2)),
        line(Type::DISPUTE, 1, 2, None),
        line(Type::CHARGEBACK, 1, 2, None),
    ]);
    assert_eq!(clients[&1], state(1, 10, 0, 10, true));
}

#[test]
fn replay_charges_back_a_withdrawal() {
    let clients = run(vec![
        line(Type::DEPOSIT, 1, 1, Some(10)),
        line(Type::WITHDRAWAL, 1, 2, Some(2)),
        line(Type::DISPUTE, 1, 2, None),
        line(Type::CHARGEBACK, 1, 2, None),
    ]);
    assert_eq!(clients[&1], state(1, 10, 0, 10, true));
}

#[test]
fn replay_applies_a_resolve_that_comes_before_its_dispute() {
    let clients = run(vec![
        line(Type::DEPOSIT, 1, 1, Some(10)),
        line(Type::RESOLVE, 1, 1, None),
        line(Type::DISPUTE, 1, 1, None),
    ]);
    assert_eq!(clients[&1], state(1, 10, 0, 10, false));
}

#[test]
fn replay_drops_a_reference_to_an_unknown_transaction() {
    let clients = run(vec![
        line(Type::DEPOSIT, 1, 1, Some(10)),
        line(Type::DISPUTE, 1, 50, None),
        line(Type::RESOLVE, 1, 51, None),
        line(Type::CHARGEBACK, 1, 52, None),
    ]);
    assert_eq!(clients[&1], state(1, 10, 0, 10, false));
}

#[test]
fn replay_opens_an_account_on_any_first_reference() {
    let clients = run(vec![line(Type::CHARGEBACK, 6, 1, None)]);
    assert_eq!(clients.len(), 1);
    assert_eq!(clients[&6], state(6, 0, 0, 0, false));
}

#[test]
fn replay_gives_each_unnamed_record_an_account_of_its_own() {
    let clients = run(vec![
        line(Type::DEPOSIT, 0, 1, Some(10)),
        line(Type::DEPOSIT, 0, 2, Some(20)),
        line(Type::DEPOSIT, 5, 3, Some(30)),
    ]);
    assert_eq!(clients.len(), 3);
    assert!(!clients.contains_key(&0));
    assert_eq!(clients[&5], state(5, 30, 0, 30, false));
    let mut others: Vec<i128> = Vec::new();
    for (id, client) in clients.iter() {
        assert_eq!(*id, client.client);
        assert_eq!(client.total, client.available + client.held);
        if *id != 5 {
            others.push(client.available);
        }
    }
    others.sort();
    assert_eq!(others, vec![10, 20]);
}

#[test]
fn replay_takes_an_index_made_by_hand() {
    let index: RecordMap = HashMap::new();
    let records = vec![
        line(Type::DEPOSIT, 1, 1, Some(10)),
        line(Type::DISPUTE, 1, 1, None),
    ];
    let clients = replay(&records, &index);
    assert_eq!(clients[&1], state(1, 10, 0, 10, false));
}

#[test]
fn replay_holds_the_largest_and_smallest_amounts() {
    let clients = run(vec![
        line(Type::DEPOSIT, 1, 1, Some(i64::MAX)),
        line(Type::DEPOSIT, 1, 2, Some(i64::MAX)),
        line(Type::DEPOSIT, 2, 3, Some(i64::MIN)),
        line(Type::DEPOSIT, 2, 4, Some(i64::MIN)),
    ]);
    let most = 2 * (i64::MAX as i128);
    let least = 2 * (i64::MIN as i128);
    assert_eq!(clients[&1], state(1, most, 0, most, false));
    assert_eq!(clients[&2], state(2, least, 0, least, false));
}
