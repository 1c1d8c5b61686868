use bond_subscriber::addressing::{
    make_bond_address, make_holding_address, make_order_address, make_participant_address,
    make_quote_address, make_receipt_address, make_settlement_address,
};
use bond_subscriber::codec::StateChange;
use bond_subscriber::codec::StateChangeKind;
use bond_subscriber::data_manager::{DataManager, OperationType};
use bond_subscriber::event_handler::{Event, EventAttribute, EventHandler, ProjectionError};
use bond_subscriber::models::{Block, MAX_BLOCK_NUM};

fn put_u16(v: &mut Vec<u8>, n: u16) {
    v.push((n & 0xff) as u8);
    v.push((n >> 8) as u8);
}

fn put_str(v: &mut Vec<u8>, s: &str) {
    put_u16(v, s.len() as u16);
    v.extend_from_slice(s.as_bytes());
}

fn get_event_handler() -> EventHandler {
    EventHandler::new(DataManager::new())
}

fn make_block_commit_event(block_num: &str, block_id: &str) -> Event {
    let attr1 = EventAttribute {
        key: String::from("block_num"),
        value: String::from(block_num),
    };
    let attr2 = EventAttribute {
        key: String::from("block_id"),
        value: String::from(block_id),
    };
    Event {
        event_type: String::from("sawtooth/block-commit"),
        attributes: vec![attr1, attr2],
        data: Vec::new(),
    }
}

fn make_state_delta_event(data: &[u8]) -> Event {
    Event {
        event_type: String::from("sawtooth/state-delta"),
        attributes: Vec::new(),
        data: data.to_vec(),
    }
}

fn encode_participant(public_key: &str, organization_id: &str, username: &str) -> Vec<u8> {
    let mut v = Vec::new();
    put_str(&mut v, public_key);
    put_str(&mut v, organization_id);
    put_str(&mut v, username);
    v
}

fn encode_changes(changes: &[(String, u8, Vec<u8>)]) -> Vec<u8> {
    let mut v = Vec::new();
    put_u16(&mut v, changes.len() as u16);
    for (addr, kind, value) in changes {
        put_str(&mut v, addr);
        v.push(*kind);
        put_u16(&mut v, value.len() as u16);
        v.extend_from_slice(value);
    }
    v
}

#[test]
fn test_parse_block() {
    let event_handler = get_event_handler();

    let b = Block { block_num: 1, block_id: String::from("block_1") };

    let block_commit_event = make_block_commit_event("1", "block_1");

    let b2 = event_handler.parse_block(&vec![block_commit_event]).expect("no block parsed");

    assert_eq!(b.block_num, b2.block_num);
    assert_eq!(b.block_id, b2.block_id);
}

#[test]
fn parse_block_requires_commit_event() {
    let event_handler = get_event_handler();
    assert!(event_handler.parse_block(&vec![]).is_err());
    let stray = make_state_delta_event(&[]);
    assert!(event_handler.parse_block(&vec![stray]).is_err());
}

#[test]
fn parse_block_rejects_bad_number() {
    let event_handler = get_event_handler();
    let e = make_block_commit_event("one", "block_1");
    assert!(matches!(
        event_handler.parse_block(&vec![e]),
        Err(ProjectionError::PayloadDecodeError)
    ));
}

#[test]
fn state_delta_events_filter_foreign_addresses() {
    let event_handler = get_event_handler();
    let ours = make_participant_address("key1");
    let foreign: String = "0".repeat(70);
    let data = encode_changes(&[
        (ours.clone(), 0, encode_participant("key1", "org1", "user1")),
        (foreign, 0, Vec::new()),
    ]);
    let events = vec![make_block_commit_event("1", "b1"), make_state_delta_event(&data)];
    let changes = event_handler.parse_state_delta_events(&events).expect("parse failed");
    assert_eq!(changes.len(), 1);
    assert_eq!(changes[0].address, ours);
}

#[test]
fn parse_transaction_builds_participant_insert() {
    let event_handler = get_event_handler();
    let block = Block { block_num: 5, block_id: String::from("b5") };
    let state = StateChange {
        address: make_participant_address("key1"),
        value: encode_participant("key1", "org1", "user1"),
        kind: StateChangeKind::SET,
    };
    let op = event_handler.parse_transaction(&state, &block).expect("interpretation failed");
    match op {
        OperationType::InsertParticipants(ps) => {
            assert_eq!(ps.len(), 1);
            assert_eq!(ps[0].public_key, "key1");
            assert_eq!(ps[0].organization_id, "org1");
            assert_eq!(ps[0].username, "user1");
            assert_eq!(ps[0].start_block_num, 5);
            assert_eq!(ps[0].end_block_num, MAX_BLOCK_NUM);
        }
        _ => panic!("wrong operation kind"),
    }
}

#[test]
fn parse_transaction_builds_holding_close() {
    let event_handler = get_event_handler();
    let block = Block { block_num: 9, block_id: String::from("b9") };
    let address = make_holding_address("org1", "asset1");
    let state = StateChange {
        address: address.clone(),
        value: Vec::new(),
        kind: StateChangeKind::DELETE,
    };
    let op = event_handler.parse_transaction(&state, &block).expect("interpretation failed");
    match op {
        OperationType::UpdateHolding(a, current, max) => {
            assert_eq!(a, address);
            assert_eq!(current, 9);
            assert_eq!(max, MAX_BLOCK_NUM);
        }
        _ => panic!("wrong operation kind"),
    }
}

#[test]
fn parse_transaction_rejects_short_address() {
    let event_handler = get_event_handler();
    let block = Block { block_num: 1, block_id: String::from("b") };
    let state = StateChange {
        address: String::from("abc"),
        value: Vec::new(),
        kind: StateChangeKind::SET,
    };
    assert!(matches!(
        event_handler.parse_transaction(&state, &block),
        Err(ProjectionError::MalformedAddress)
    ));
}

#[test]
fn parse_transaction_rejects_unknown_tag() {
    let event_handler = get_event_handler();
    let block = Block { block_num: 1, block_id: String::from("b") };
    let state = StateChange {
        address: "0".repeat(70),
        value: Vec::new(),
        kind: StateChangeKind::SET,
    };
    assert!(matches!(
        event_handler.parse_transaction(&state, &block),
        Err(ProjectionError::MalformedAddress)
    ));
}

#[test]
fn parse_transaction_rejects_bad_payload() {
    let event_handler = get_event_handler();
    let block = Block { block_num: 1, block_id: String::from("b") };
    for address in [
        make_participant_address("k"),
        make_bond_address("b"),
        make_order_address("o", "b"),
        make_quote_address("o", "b"),
        make_receipt_address("o", "b"),
        make_settlement_address("o", "x"),
        make_holding_address("o", "a"),
    ] {
        let state = StateChange {
            address,
            value: vec![1, 2, 3],
            kind: StateChangeKind::SET,
        };
        assert!(matches!(
            event_handler.parse_transaction(&state, &block),
            Err(ProjectionError::PayloadDecodeError)
        ));
    }
}

#[test]
fn parse_events_projects_a_block() {
    let mut event_handler = get_event_handler();
    let data = encode_changes(&[(
        make_participant_address("key1"),
        0,
        encode_participant("key1", "org1", "user1"),
    )]);
    let events = vec![make_block_commit_event("3", "b3"), make_state_delta_event(&data)];
    event_handler.parse_events(&events).expect("projection failed");

    let rows = event_handler.data_manager.get_participants();
    assert_eq!(rows.len(), 1);
    assert_eq!(rows[0].public_key, "key1");
    assert_eq!(rows[0].start_block_num, 3);
    assert_eq!(rows[0].end_block_num, MAX_BLOCK_NUM);
    assert_eq!(event_handler.data_manager.get_blocks().len(), 1);
}

/// If one mutation of a block fails to decode, none of the block's
/// mutations (nor the block row) are applied.
#[test]
fn bad_mutation_aborts_whole_block() {
    let mut event_handler = get_event_handler();
    let mut changes = Vec::new();
    for k in 0..5u8 {
        let key = format!("key{}", k);
        if k == 2 {
            // mutation 3 of 5: garbage payload
            changes.push((make_participant_address(&key), 0u8, vec![9, 9, 9]));
        } else {
            changes.push((
                make_participant_address(&key),
                0u8,
                encode_participant(&key, "org1", "user1"),
            ));
        }
    }
    let data = encode_changes(&changes);
    let events = vec![make_block_commit_event("1", "b1"), make_state_delta_event(&data)];
    let r = event_handler.parse_events(&events);
    assert!(matches!(r, Err(ProjectionError::PayloadDecodeError)));
    assert_eq!(event_handler.data_manager.get_participants().len(), 0);
    assert_eq!(event_handler.data_manager.get_blocks().len(), 0);
}

#[test]
fn duplicate_events_are_recognized() {
    let mut event_handler = get_event_handler();
    let data = encode_changes(&[(
        make_participant_address("key1"),
        0,
        encode_participant("key1", "org1", "user1"),
    )]);
    let events = vec![make_block_commit_event("2", "b2"), make_state_delta_event(&data)];
    event_handler.parse_events(&events).expect("projection failed");
    event_handler.parse_events(&events).expect("redelivery failed");
    assert_eq!(event_handler.data_manager.get_participants().len(), 1);
    assert_eq!(event_handler.data_manager.get_blocks().len(), 1);
}

#[test]
fn parse_transaction_builds_settlement_order_bond_receipt_quote() {
    let event_handler = get_event_handler();
    let block = Block { block_num: 7, block_id: String::from("b7") };

    // settlement
    let mut v = Vec::new();
    put_str(&mut v, "ord1");
    put_str(&mut v, "orgA");
    put_str(&mut v, "orgB");
    v.push(1); // sell
    put_str(&mut v, "100");
    put_str(&mut v, "-2500");
    let state = StateChange {
        address: make_settlement_address("orgA", "ord1"),
        value: v,
        kind: StateChangeKind::SET,
    };
    match event_handler.parse_transaction(&state, &block).expect("settlement") {
        OperationType::InsertSettlement(s) => {
            assert_eq!(s.order_id, "ord1");
            assert_eq!(s.ordering_organization_id, "orgA");
            assert_eq!(s.quoting_organization_id, "orgB");
            assert_eq!(s.bond_quantity, 100);
            assert_eq!(s.currency_amount, -2500);
            assert_eq!(s.start_block_num, 7);
            assert_eq!(s.end_block_num, MAX_BLOCK_NUM);
        }
        _ => panic!("wrong operation kind"),
    }

    // order
    let mut v = Vec::new();
    put_str(&mut v, "bond1");
    put_str(&mut v, "orgA");
    put_str(&mut v, "ord1");
    put_str(&mut v, "99");
    put_str(&mut v, "3");
    put_str(&mut v, "10");
    put_str(&mut v, "q1");
    v.push(2); // settled
    v.push(0); // buy
    v.push(1); // limit
    put_str(&mut v, "1700000000");
    let state = StateChange {
        address: make_order_address("orgA", "bond1"),
        value: v,
        kind: StateChangeKind::SET,
    };
    match event_handler.parse_transaction(&state, &block).expect("order") {
        OperationType::InsertOrder(o) => {
            assert_eq!(o.bond_id, "bond1");
            assert_eq!(o.order_id, "ord1");
            assert_eq!(o.limit_price, 99);
            assert_eq!(o.quantity, 10);
            assert_eq!(o.quote_id, "q1");
            assert_eq!(o.timestamp, 1700000000);
        }
        _ => panic!("wrong operation kind"),
    }

    // bond with two ratings
    let mut v = Vec::new();
    put_str(&mut v, "bond1");
    put_str(&mut v, "orgA");
    put_str(&mut v, "1000000");
    put_str(&mut v, "5");
    put_str(&mut v, "20300101");
    put_str(&mut v, "20240101");
    put_str(&mut v, "20400101");
    put_str(&mut v, "1000");
    v.push(0); // fixed
    v.push(2); // daily
    put_u16(&mut v, 2);
    put_str(&mut v, "AgencyOne");
    put_str(&mut v, "AA");
    put_str(&mut v, "AgencyTwo");
    put_str(&mut v, "B+");
    let state = StateChange {
        address: make_bond_address("bond1"),
        value: v,
        kind: StateChangeKind::SET,
    };
    match event_handler.parse_transaction(&state, &block).expect("bond") {
        OperationType::InsertBond(b, ratings) => {
            assert_eq!(b.bond_id, "bond1");
            assert_eq!(b.amount_outstanding, 1000000);
            assert_eq!(b.face_value, 1000);
            assert_eq!(ratings.len(), 2);
            assert_eq!(ratings[0].bond_id, "bond1");
            assert_eq!(ratings[0].agency, "AgencyOne");
            assert_eq!(ratings[0].rating, "AA");
            assert_eq!(ratings[1].agency, "AgencyTwo");
            assert_eq!(ratings[1].rating, "B+");
        }
        _ => panic!("wrong operation kind"),
    }

    // receipt
    let mut v = Vec::new();
    put_str(&mut v, "orgA");
    put_str(&mut v, "bond1");
    v.push(1); // redemption
    put_str(&mut v, "20240101");
    put_str(&mut v, "50");
    put_str(&mut v, "1700000001");
    let state = StateChange {
        address: make_receipt_address("orgA", "bond1"),
        value: v,
        kind: StateChangeKind::SET,
    };
    match event_handler.parse_transaction(&state, &block).expect("receipt") {
        OperationType::InsertReceipt(r) => {
            assert_eq!(r.payee_organization_id, "orgA");
            assert_eq!(r.bond_id, "bond1");
            assert_eq!(r.coupon_date, 20240101);
            assert_eq!(r.amount, 50);
        }
        _ => panic!("wrong operation kind"),
    }

    // quote
    let mut v = Vec::new();
    put_str(&mut v, "bond1");
    put_str(&mut v, "orgB");
    put_str(&mut v, "101");
    put_str(&mut v, "5");
    put_str(&mut v, "100");
    put_str(&mut v, "8");
    v.push(0); // open
    put_str(&mut v, "1700000002");
    let state = StateChange {
        address: make_quote_address("orgB", "bond1"),
        value: v,
        kind: StateChangeKind::SET,
    };
    match event_handler.parse_transaction(&state, &block).expect("quote") {
        OperationType::InsertQuote(q) => {
            assert_eq!(q.bond_id, "bond1");
            assert_eq!(q.organization_id, "orgB");
            assert_eq!(q.ask_price, 101);
            assert_eq!(q.bid_qty, 8);
        }
        _ => panic!("wrong operation kind"),
    }
}

#[test]
fn parse_transaction_builds_organization_with_authorizations() {
    let event_handler = get_event_handler();
    let block = Block { block_num: 2, block_id: String::from("b2") };
    let mut v = Vec::new();
    put_str(&mut v, "orgA");
    put_str(&mut v, "finance");
    put_str(&mut v, "Org A");
    v.push(0); // trading firm
    put_u16(&mut v, 1);
    put_str(&mut v, "keyZ");
    v.push(1); // trader
    let state = StateChange {
        address: bond_subscriber::addressing::make_organization_address("orgA"),
        value: v,
        kind: StateChangeKind::SET,
    };
    match event_handler.parse_transaction(&state, &block).expect("organization") {
        OperationType::InsertOrganizations(items) => {
            assert_eq!(items.len(), 1);
            let (org, auths) = &items[0];
            assert_eq!(org.organization_id, "orgA");
            assert_eq!(org.name, "Org A");
            assert_eq!(org.start_block_num, 2);
            assert_eq!(auths.len(), 1);
            assert_eq!(auths[0].organization_id, "orgA");
            assert_eq!(auths[0].participant_public_key, "keyZ");
        }
        _ => panic!("wrong operation kind"),
    }
}
