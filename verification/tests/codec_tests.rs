use bond_subscriber::codec::{
    decode_holding, decode_organization, decode_participant, decode_state_change_list,
    parse_i64_dec, StateChangeKind,
};
use bond_subscriber::models::{AssetTypeEnum, OrganizationTypeEnum, RoleEnum};

fn put_u16(v: &mut Vec<u8>, n: u16) {
    v.push((n & 0xff) as u8);
    v.push((n >> 8) as u8);
}

fn put_str(v: &mut Vec<u8>, s: &str) {
    put_u16(v, s.len() as u16);
    v.extend_from_slice(s.as_bytes());
}

fn put_i64(v: &mut Vec<u8>, x: i64) {
    put_str(v, &x.to_string());
}

#[test]
fn parse_i64_dec_reads_decimals() {
    assert_eq!(parse_i64_dec("0"), Some(0));
    assert_eq!(parse_i64_dec("42"), Some(42));
    assert_eq!(parse_i64_dec("-17"), Some(-17));
    assert_eq!(parse_i64_dec("9223372036854775807"), Some(i64::MAX));
    assert_eq!(parse_i64_dec("-9223372036854775808"), Some(i64::MIN));
    assert_eq!(parse_i64_dec("9223372036854775808"), None);
    assert_eq!(parse_i64_dec("-9223372036854775809"), None);
    assert_eq!(parse_i64_dec("184467440737095516150"), None);
    assert_eq!(parse_i64_dec(""), None);
    assert_eq!(parse_i64_dec("-"), None);
    assert_eq!(parse_i64_dec("12a"), None);
    assert_eq!(parse_i64_dec("+5"), None);
}

#[test]
fn participant_round_trips() {
    let mut v = Vec::new();
    put_str(&mut v, "key1");
    put_str(&mut v, "org1");
    put_str(&mut v, "user1");
    let m = decode_participant(&v).expect("decode failed");
    assert_eq!(m.public_key, "key1");
    assert_eq!(m.organization_id, "org1");
    assert_eq!(m.username, "user1");
}

#[test]
fn participant_rejects_trailing_bytes() {
    let mut v = Vec::new();
    put_str(&mut v, "key1");
    put_str(&mut v, "org1");
    put_str(&mut v, "user1");
    v.push(0);
    assert!(decode_participant(&v).is_err());
}

#[test]
fn participant_rejects_truncation() {
    let mut v = Vec::new();
    put_str(&mut v, "key1");
    put_str(&mut v, "org1");
    put_str(&mut v, "user1");
    v.pop();
    assert!(decode_participant(&v).is_err());
}

#[test]
fn strings_must_be_ascii() {
    let mut v = Vec::new();
    put_u16(&mut v, 2);
    v.push(0xc3);
    v.push(0xa9);
    put_str(&mut v, "org1");
    put_str(&mut v, "user1");
    assert!(decode_participant(&v).is_err());
}

#[test]
fn organization_round_trips_with_authorizations() {
    let mut v = Vec::new();
    put_str(&mut v, "org1");
    put_str(&mut v, "finance");
    put_str(&mut v, "First Org");
    v.push(1); // pricing source
    put_u16(&mut v, 2); // two authorizations
    put_str(&mut v, "keyA");
    v.push(0); // market maker
    put_str(&mut v, "keyB");
    v.push(1); // trader
    let m = decode_organization(&v).expect("decode failed");
    assert_eq!(m.organization_id, "org1");
    assert_eq!(m.industry, "finance");
    assert_eq!(m.name, "First Org");
    assert!(matches!(m.organization_type, OrganizationTypeEnum::PRICINGSOURCE));
    assert_eq!(m.authorizations.len(), 2);
    assert_eq!(m.authorizations[0].public_key, "keyA");
    assert!(matches!(m.authorizations[0].role, RoleEnum::MARKETMAKER));
    assert_eq!(m.authorizations[1].public_key, "keyB");
    assert!(matches!(m.authorizations[1].role, RoleEnum::TRADER));
}

#[test]
fn organization_rejects_unknown_enum_tag() {
    let mut v = Vec::new();
    put_str(&mut v, "org1");
    put_str(&mut v, "finance");
    put_str(&mut v, "First Org");
    v.push(7); // no such organization type
    put_u16(&mut v, 0);
    assert!(decode_organization(&v).is_err());
}

#[test]
fn holding_round_trips() {
    let mut v = Vec::new();
    put_str(&mut v, "org1");
    put_str(&mut v, "asset1");
    v.push(1); // bond
    put_i64(&mut v, -250);
    let m = decode_holding(&v).expect("decode failed");
    assert_eq!(m.organization_id, "org1");
    assert_eq!(m.asset_id, "asset1");
    assert!(matches!(m.asset_type, AssetTypeEnum::BOND));
    assert_eq!(m.amount, -250);
}

#[test]
fn holding_rejects_bad_amount() {
    let mut v = Vec::new();
    put_str(&mut v, "org1");
    put_str(&mut v, "asset1");
    v.push(0);
    put_str(&mut v, "12x");
    assert!(decode_holding(&v).is_err());
}

#[test]
fn state_change_list_round_trips() {
    let addr = "f".repeat(70);
    let mut inner = Vec::new();
    put_str(&mut inner, "key1");
    put_str(&mut inner, "org1");
    put_str(&mut inner, "user1");

    let mut v = Vec::new();
    put_u16(&mut v, 2);
    // one set
    put_str(&mut v, &addr);
    v.push(0);
    put_u16(&mut v, inner.len() as u16);
    v.extend_from_slice(&inner);
    // one delete with empty value
    put_str(&mut v, &addr);
    v.push(1);
    put_u16(&mut v, 0);

    let changes = decode_state_change_list(&v).expect("decode failed");
    assert_eq!(changes.len(), 2);
    assert_eq!(changes[0].address, addr);
    assert!(matches!(changes[0].kind, StateChangeKind::SET));
    assert_eq!(changes[0].value, inner);
    assert!(matches!(changes[1].kind, StateChangeKind::DELETE));
    assert!(changes[1].value.is_empty());
}

#[test]
fn state_change_list_rejects_short_count() {
    let mut v = Vec::new();
    put_u16(&mut v, 3);
    put_str(&mut v, "addr");
    v.push(0);
    put_u16(&mut v, 0);
    assert!(decode_state_change_list(&v).is_err());
}
