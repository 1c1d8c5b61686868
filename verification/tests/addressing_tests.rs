use bond_subscriber::addressing::{
    check_type_tags_distinct, get_address_type, get_bond_namespace, hash, make_bond_address,
    make_holding_address, make_order_address, make_organization_address,
    make_participant_address, make_quote_address, make_receipt_address, make_settlement_address,
    AddressSpace,
};

#[test]
fn hash_matches_known_digest() {
    // SHA-256("abc") in hexadecimal
    assert_eq!(
        hash("abc", 64),
        "ba7816bf8f01cfea414140de5dae2223b00361a396177a9cb410ff61f20015ad"
    );
    assert_eq!(hash("abc", 6), "ba7816");
    assert_eq!(hash("abc", 0), "");
}

#[test]
fn namespace_is_six_hex_chars() {
    let ns = get_bond_namespace();
    assert_eq!(ns.len(), 6);
    assert!(ns.chars().all(|c| c.is_ascii_hexdigit() && !c.is_ascii_uppercase()));
}

#[test]
fn addresses_are_deterministic() {
    assert_eq!(make_organization_address("org1"), make_organization_address("org1"));
    assert_eq!(make_participant_address("key1"), make_participant_address("key1"));
    assert_eq!(make_bond_address("bond1"), make_bond_address("bond1"));
    assert_eq!(
        make_holding_address("org1", "asset1"),
        make_holding_address("org1", "asset1")
    );
    assert_ne!(make_organization_address("org1"), make_organization_address("org2"));
}

#[test]
fn addresses_are_seventy_chars() {
    for a in [
        make_organization_address("o"),
        make_participant_address("p"),
        make_bond_address("b"),
        make_holding_address("o", "a"),
        make_settlement_address("o", "ord"),
        make_receipt_address("o", "b"),
        make_quote_address("o", "b"),
        make_order_address("o", "b"),
    ] {
        assert_eq!(a.len(), 70);
        assert!(a.chars().all(|c| c.is_ascii_hexdigit() && !c.is_ascii_uppercase()));
    }
}

#[test]
fn type_tags_are_distinct() {
    assert!(check_type_tags_distinct());
}

#[test]
fn classification_inverts_derivation() {
    assert!(matches!(
        get_address_type(&make_organization_address("org1")),
        AddressSpace::ORGANIZATION
    ));
    assert!(matches!(
        get_address_type(&make_participant_address("key1")),
        AddressSpace::PARTICIPANT
    ));
    assert!(matches!(get_address_type(&make_bond_address("b1")), AddressSpace::BOND));
    assert!(matches!(
        get_address_type(&make_holding_address("o", "a")),
        AddressSpace::HOLDING
    ));
    assert!(matches!(
        get_address_type(&make_settlement_address("o", "ord")),
        AddressSpace::SETTLEMENT
    ));
    assert!(matches!(
        get_address_type(&make_receipt_address("o", "b")),
        AddressSpace::RECEIPT
    ));
    assert!(matches!(get_address_type(&make_quote_address("o", "b")), AddressSpace::QUOTE));
    assert!(matches!(get_address_type(&make_order_address("o", "b")), AddressSpace::ORDER));
}

#[test]
fn foreign_addresses_classify_as_another_family() {
    let a: String = "0".repeat(70);
    assert!(matches!(get_address_type(&a), AddressSpace::ANOTHER_FAMILY));
}
