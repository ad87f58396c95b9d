use ledger_replay::index::CSV;
use ledger_replay::record::{Record, Status, Type};

fn line(kind: Type, client: u16, tx: u32, amount: Option<i64>) -> Record {
    Record { kind, client, tx, amount, status: None }
}

#[test]
fn test_load() {
    let mut records = Vec::new();
    for tx in 1..=9u32 {
        records.push(line(Type::DEPOSIT, 1, tx, Some(10)));
    }
    for tx in 10..=13u32 {
        records.push(line(Type::WITHDRAWAL, 2, tx, Some(1)));
    }
    records.push(line(Type::DISPUTE, 1, 3, None));
    records.push(line(Type::RESOLVE, 1, 3, None));
    records.push(line(Type::DISPUTE, 2, 11, None));
    records.push(line(Type::CHARGEBACK, 2, 11, None));

    let csv = CSV::load(records);

    assert_eq!(csv.records_vec.len(), 17);
    assert_eq!(csv.records_map.len(), 13);
}

#[test]
fn load_of_nothing_gives_an_empty_index() {
    let csv = CSV::load(Vec::new());
    assert!(csv.records_vec.is_empty());
    assert!(csv.records_map.is_empty());
}

#[test]
fn load_keeps_the_records_in_order() {
    let records = vec![
        line(Type::DISPUTE, 4, 8, None),
        line(Type::DEPOSIT, 4, 8, Some(3)),
        line(Type::RESOLVE, 4, 8, None),
    ];
    let csv = CSV::load(records.clone());
    assert_eq!(csv.records_vec, records);
}

#[test]
fn load_stores_bookings_only() {
    let csv = CSV::load(vec![
        line(Type::DEPOSIT, 1, 1, Some(10)),
        line(Type::WITHDRAWAL, 1, 2, Some(4)),
        line(Type::DISPUTE, 1, 3, None),
        line(Type::RESOLVE, 1, 4, None),
        line(Type::CHARGEBACK, 1, 5, None),
    ]);
    assert_eq!(csv.records_map.len(), 2);
    assert_eq!(csv.records_map.get(&1), Some(&line(Type::DEPOSIT, 1, 1, Some(10))));
    assert_eq!(csv.records_map.get(&2), Some(&line(Type::WITHDRAWAL, 1, 2, Some(4))));
    assert_eq!(csv.records_map.get(&3), None);
}

#[test]
fn load_marks_a_disputed_booking() {
    let csv = CSV::load(vec![
        line(Type::DEPOSIT, 1, 1, Some(10)),
        line(Type::DEPOSIT, 1, 2, Some(2)),
        line(Type::DISPUTE, 1, 2, None),
    ]);
    let marked = Record {
        kind: Type::DEPOSIT,
        client: 1,
        tx: 2,
        amount: Some(2),
        status: Some(Status::DISPUTED),
    };
    assert_eq!(csv.records_map.get(&2), Some(&marked));
    assert_eq!(csv.records_map.get(&1), Some(&line(Type::DEPOSIT, 1, 1, Some(10))));
}

#[test]
fn load_ignores_a_dispute_that_comes_before_its_booking() {
    let csv = CSV::load(vec![
        line(Type::DISPUTE, 1, 2, None),
        line(Type::DEPOSIT, 1, 2, Some(2)),
    ]);
    assert_eq!(csv.records_map.get(&2), Some(&line(Type::DEPOSIT, 1, 2, Some(2))));
}

#[test]
fn load_keeps_the_mark_after_resolve_and_chargeback() {
    let csv = CSV::load(vec![
        line(Type::WITHDRAWAL, 1, 2, Some(2)),
        line(Type::DISPUTE, 1, 2, None),
        line(Type::RESOLVE, 1, 2, None),
        line(Type::CHARGEBACK, 1, 2, None),
    ]);
    assert_eq!(csv.records_map[&2].status, Some(Status::DISPUTED));
}

#[test]
fn load_replaces_a_booking_with_a_later_one_of_the_same_identifier() {
    let csv = CSV::load(vec![
        line(Type::DEPOSIT, 1, 2, Some(2)),
        line(Type::DISPUTE, 1, 2, None),
        line(Type::WITHDRAWAL, 5, 2, Some(7)),
    ]);
    assert_eq!(csv.records_map.get(&2), Some(&line(Type::WITHDRAWAL, 5, 2, Some(7))));
}

#[test]
fn load_stores_a_booking_as_not_marked() {
    let arrived = Record {
        kind: Type::DEPOSIT,
        client: 1,
        tx: 2,
        amount: Some(2),
        status: Some(Status::DISPUTED),
    };
    let csv = CSV::load(vec![arrived]);
    assert_eq!(csv.records_map[&2].status, None);
    assert_eq!(csv.records_vec[0].status, Some(Status::DISPUTED));
}

#[test]
fn default_ledger_is_empty() {
    let csv = CSV::default();
    assert!(csv.records_vec.is_empty());
    assert!(csv.records_map.is_empty());
}

#[test]
fn clone_keeps_records_and_index() {
    let csv = CSV::load(vec![
        line(Type::DEPOSIT, 1, 1, Some(10)),
        line(Type::DISPUTE, 1, 1, None),
    ]);
    let copy = csv.clone();
    assert_eq!(copy.records_vec, csv.records_vec);
    assert_eq!(copy.records_map, csv.records_map);
}
