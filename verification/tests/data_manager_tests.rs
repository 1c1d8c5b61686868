use bond_subscriber::data_manager::{DataManager, OperationType};
use bond_subscriber::models::{
    AssetTypeEnum, Block, NewAuthorization, NewHolding, NewOrganization, NewParticipant,
    OrganizationTypeEnum, RoleEnum, MAX_BLOCK_NUM,
};

fn get_data_manager() -> DataManager {
    DataManager::new()
}

fn mock_insert_participant_operation(
    organization_id: &str,
    public_key: &str,
    start_block_num: i64,
) -> OperationType {
    let participant = NewParticipant {
        public_key: String::from(public_key),
        organization_id: String::from(organization_id),
        username: String::from("user1"),
        start_block_num: start_block_num,
        end_block_num: MAX_BLOCK_NUM,
    };
    OperationType::InsertParticipants(vec![participant])
}

fn get_block(block_num: i64, block_id: &str) -> Block {
    Block { block_num: block_num, block_id: String::from(block_id) }
}

#[test]
fn test_drop_fork() {
    let participant_operation1 = mock_insert_participant_operation("T", "124324253", 3);
    let participant_operation2 = mock_insert_participant_operation("T", "443241214", 10);

    let block1 = get_block(2, "block_test1");
    let block2 = get_block(10, "block_test2");

    let mut manager = get_data_manager();

    manager
        .execute_transactions_in_block(vec![participant_operation1], &block1)
        .expect("Error executing transactions");
    manager
        .execute_transactions_in_block(vec![participant_operation2], &block2)
        .expect("Error executing transactions");

    let participants_list = manager.get_participants();
    let block_list = manager.get_blocks();

    // before dropping the fork
    assert_eq!(2, participants_list.len());
    assert_eq!(2, block_list.len());

    let forked_block = get_block(10, "forked_block");

    manager
        .execute_transactions_in_block(vec![], &forked_block)
        .expect("Error executing transactions");

    let participants_list = manager.get_participants();
    let block_list = manager.get_blocks();

    // after dropping the fork there should be only one participant
    assert_eq!(1, participants_list.len());
    // after dropping the fork there should be two blocks, not three
    assert_eq!(2, block_list.len());
}

/// Tests that nothing is committed if the block inserted is a duplicate.
#[test]
fn test_duplicate_block() {
    let participant_operation1 = mock_insert_participant_operation("T", "124324253", 3);
    let participant_operation2 = mock_insert_participant_operation("T", "443241214", 3);

    let block1 = get_block(1, "block_test1");

    let mut manager = get_data_manager();

    manager
        .execute_transactions_in_block(vec![participant_operation1], &block1)
        .expect("Error executing transactions");

    let participants_list = manager.get_participants();
    assert_eq!(1, participants_list.len());

    manager
        .execute_transactions_in_block(vec![participant_operation2], &block1)
        .expect("Error executing transaction.");

    let participants_list = manager.get_participants();
    assert_eq!(1, participants_list.len()); // check that a new row was not added
}

/// Two participants inserted at different blocks each keep an open row;
/// a later version of the first closes its row and opens a new one.
#[test]
fn versions_supersede_per_key() {
    let mut manager = get_data_manager();

    manager
        .execute_transactions_in_block(
            vec![mock_insert_participant_operation("org", "alpha", 3)],
            &get_block(3, "b3"),
        )
        .expect("Error executing transactions");
    manager
        .execute_transactions_in_block(
            vec![mock_insert_participant_operation("org", "beta", 10)],
            &get_block(10, "b10"),
        )
        .expect("Error executing transactions");

    let rows = manager.get_participants();
    assert_eq!(2, rows.len());
    assert!(rows.iter().all(|r| r.end_block_num == MAX_BLOCK_NUM));

    manager
        .execute_transactions_in_block(
            vec![mock_insert_participant_operation("org", "alpha", 12)],
            &get_block(12, "b12"),
        )
        .expect("Error executing transactions");

    let rows = manager.get_participants();
    assert_eq!(3, rows.len());
    let alpha_rows: Vec<_> = rows.iter().filter(|r| r.public_key == "alpha").collect();
    assert_eq!(2, alpha_rows.len());
    assert_eq!(3, alpha_rows[0].start_block_num);
    assert_eq!(12, alpha_rows[0].end_block_num);
    assert_eq!(12, alpha_rows[1].start_block_num);
    assert_eq!(MAX_BLOCK_NUM, alpha_rows[1].end_block_num);
    let beta_rows: Vec<_> = rows.iter().filter(|r| r.public_key == "beta").collect();
    assert_eq!(1, beta_rows.len());
    assert_eq!(MAX_BLOCK_NUM, beta_rows[0].end_block_num);
}

/// A holding inserted at block 2 and deleted at block 9 is closed at 9
/// with no replacement row.
#[test]
fn holding_delete_closes_without_insert() {
    let mut manager = get_data_manager();
    let address = "a".repeat(70);

    let holding = NewHolding {
        owner_organization_id: String::from("org"),
        asset_id: String::from("asset"),
        asset_type: AssetTypeEnum::CURRENCY,
        amount: 250,
        address: address.clone(),
        start_block_num: 2,
        end_block_num: MAX_BLOCK_NUM,
    };
    manager
        .execute_transactions_in_block(
            vec![OperationType::InsertHolding(holding)],
            &get_block(2, "b2"),
        )
        .expect("Error executing transactions");

    manager
        .execute_transactions_in_block(
            vec![OperationType::UpdateHolding(address.clone(), 9, MAX_BLOCK_NUM)],
            &get_block(9, "b9"),
        )
        .expect("Error executing transactions");

    let rows = manager.get_holdings();
    assert_eq!(1, rows.len());
    assert_eq!(2, rows[0].start_block_num);
    assert_eq!(9, rows[0].end_block_num);
}

/// Applying the same block and operations twice leaves the store exactly
/// as applying them once does.
#[test]
fn redelivery_is_idempotent() {
    let mut manager = get_data_manager();
    let block = get_block(4, "b4");

    manager
        .execute_transactions_in_block(
            vec![mock_insert_participant_operation("org", "alpha", 4)],
            &block,
        )
        .expect("Error executing transactions");

    let participants_once = manager.get_participants();
    let blocks_once = manager.get_blocks();

    manager
        .execute_transactions_in_block(
            vec![mock_insert_participant_operation("org", "alpha", 4)],
            &block,
        )
        .expect("Error executing transactions");

    let participants_twice = manager.get_participants();
    let blocks_twice = manager.get_blocks();

    assert_eq!(participants_once.len(), participants_twice.len());
    assert_eq!(blocks_once.len(), blocks_twice.len());
    for (a, b) in participants_once.iter().zip(participants_twice.iter()) {
        assert_eq!(a.public_key, b.public_key);
        assert_eq!(a.start_block_num, b.start_block_num);
        assert_eq!(a.end_block_num, b.end_block_num);
    }
    for (a, b) in blocks_once.iter().zip(blocks_twice.iter()) {
        assert_eq!(a.block_num, b.block_num);
        assert_eq!(a.block_id, b.block_id);
    }
}

/// A forked block rolls the abandoned branch back: rows created on it are
/// gone, rows it had closed are reopened, and its block rows are removed.
#[test]
fn fork_reopens_closed_rows() {
    let mut manager = get_data_manager();

    manager
        .execute_transactions_in_block(
            vec![mock_insert_participant_operation("org", "alpha", 2)],
            &get_block(2, "a"),
        )
        .expect("Error executing transactions");
    // block 10 supersedes alpha, closing the first row at 10
    manager
        .execute_transactions_in_block(
            vec![mock_insert_participant_operation("org", "alpha", 10)],
            &get_block(10, "b"),
        )
        .expect("Error executing transactions");

    let rows = manager.get_participants();
    assert_eq!(2, rows.len());
    assert_eq!(10, rows[0].end_block_num);

    // a fork at 10 abandons that branch
    manager
        .execute_transactions_in_block(vec![], &get_block(10, "c"))
        .expect("Error executing transactions");

    let rows = manager.get_participants();
    assert_eq!(1, rows.len());
    assert_eq!(2, rows[0].start_block_num);
    assert_eq!(MAX_BLOCK_NUM, rows[0].end_block_num);

    let blocks = manager.get_blocks();
    assert_eq!(2, blocks.len());
    assert_eq!(2, blocks[0].block_num);
    assert_eq!("a", blocks[0].block_id);
    assert_eq!(10, blocks[1].block_num);
    assert_eq!("c", blocks[1].block_id);
}

/// Organizations carry their authorizations as rows of their own.
#[test]
fn organization_inserts_authorizations() {
    let mut manager = get_data_manager();
    let org = NewOrganization {
        organization_id: String::from("org"),
        industry: String::from("finance"),
        name: String::from("Org"),
        organization_type: OrganizationTypeEnum::TRADINGFIRM,
        start_block_num: 1,
        end_block_num: MAX_BLOCK_NUM,
    };
    let auth = NewAuthorization {
        organization_id: String::from("org"),
        participant_public_key: String::from("alpha"),
        role: RoleEnum::TRADER,
        start_block_num: 1,
        end_block_num: MAX_BLOCK_NUM,
    };
    manager
        .execute_transactions_in_block(
            vec![OperationType::InsertOrganizations(vec![(org, vec![auth])])],
            &get_block(1, "b1"),
        )
        .expect("Error executing transactions");

    assert_eq!(1, manager.get_organizations().len());
    let auths = manager.get_authorizations();
    assert_eq!(1, auths.len());
    assert_eq!("alpha", auths[0].participant_public_key);
}
