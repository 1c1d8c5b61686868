//! Deterministic state-address derivation and classification.
//!
//! Every address in this family is 70 lowercase hexadecimal characters:
//! a 6-character family namespace, a 6-character entity-type tag, and
//! 58 characters of hashed natural-key material (one 58-character hash,
//! or a 22-character and a 36-character hash for composite keys).

use vstd::prelude::*;

verus! {

pub const FAMILY_NAMESPACE: &'static str = "bond namespace";

pub const ORGANIZATION: &'static str = "organization";

pub const PARTICIPANT: &'static str = "participant";

pub const BOND: &'static str = "bond";

pub const HOLDING: &'static str = "holding";

pub const SETTLEMENT: &'static str = "settlement";

pub const RECEIPT: &'static str = "receipt";

pub const ORDER: &'static str = "order";

pub const QUOTE: &'static str = "quote";

const PREFIX_SIZE: usize = 6;

/// Hexadecimal SHA-256 digest of a character sequence; a pure function of
/// its argument, left unspecified here.
pub uninterp spec fn sha256_hex_of(s: Seq<char>) -> Seq<char>;

/// The characters a hexadecimal digest is made of.
pub open spec fn is_lower_hex_char(c: char) -> bool {
    ('0' <= c && c <= '9') || ('a' <= c && c <= 'f')
}

pub open spec fn all_lower_hex(s: Seq<char>) -> bool {
    forall|i: int| 0 <= i < s.len() ==> is_lower_hex_char(#[trigger] s[i])
}

/// The digest, normalized so that its length (64) and alphabet are known
/// facts even at the specification level.
pub open spec fn sha_hex(s: Seq<char>) -> Seq<char> {
    let d = sha256_hex_of(s);
    if d.len() == 64 && all_lower_hex(d) {
        d
    } else {
        Seq::new(64, |i: int| '0')
    }
}

pub proof fn lemma_sha_hex_shape(s: Seq<char>)
    ensures
        sha_hex(s).len() == 64,
        all_lower_hex(sha_hex(s)),
{
}

/// Relies on crypto::sha2::Sha256 with crypto::digest::Digest
/// (input_str/result_str): the digest depends on the input characters
/// alone, and result_str renders the 32-byte digest as 64 lowercase
/// hexadecimal characters.
#[verifier::external_body]
fn sha256_hex(object: &str) -> (r: String)
    ensures
        r@ == sha256_hex_of(object@),
        r@.len() == 64,
        all_lower_hex(r@),
{
    let mut sha = crypto::sha2::Sha256::new();
    crypto::digest::Digest::input_str(&mut sha, object);
    crypto::digest::Digest::result_str(&mut sha)
}

/// The first `num` characters of the hexadecimal SHA-256 digest.
pub open spec fn hash_spec(s: Seq<char>, num: int) -> Seq<char> {
    sha_hex(s).take(num)
}

pub proof fn lemma_hex_is_ascii(s: Seq<char>)
    requires
        all_lower_hex(s),
    ensures
        vstd::utf8::is_ascii_chars(s),
{
    assert forall|i: int| 0 <= i < s.len() implies '\0' <= #[trigger] s[i] <= '\u{7f}' by {
        assert(is_lower_hex_char(s[i]));
    }
}

/// Deterministic digest prefix: the first `num` characters of the
/// hexadecimal SHA-256 of `object`.
pub fn hash(object: &str, num: usize) -> (r: String)
    requires
        num <= 64,
    ensures
        r@ == hash_spec(object@, num as int),
        r@.len() == num,
        all_lower_hex(r@),
{
    let full = sha256_hex(object);
    proof {
        lemma_hex_is_ascii(full@);
    }
    let pre = full.as_str().substring_ascii(0, num);
    pre.to_owned()
}

/// The fixed 6-character namespace shared by every address of this family.
pub open spec fn namespace_spec() -> Seq<char> {
    hash_spec(FAMILY_NAMESPACE@, 6)
}

pub open spec fn organization_tag() -> Seq<char> {
    hash_spec(ORGANIZATION@, 6)
}

pub open spec fn participant_tag() -> Seq<char> {
    hash_spec(PARTICIPANT@, 6)
}

pub open spec fn bond_tag() -> Seq<char> {
    hash_spec(BOND@, 6)
}

pub open spec fn holding_tag() -> Seq<char> {
    hash_spec(HOLDING@, 6)
}

pub open spec fn settlement_tag() -> Seq<char> {
    hash_spec(SETTLEMENT@, 6)
}

pub open spec fn receipt_tag() -> Seq<char> {
    hash_spec(RECEIPT@, 6)
}

pub open spec fn order_tag() -> Seq<char> {
    hash_spec(ORDER@, 6)
}

pub open spec fn quote_tag() -> Seq<char> {
    hash_spec(QUOTE@, 6)
}

pub fn get_bond_namespace() -> (r: String)
    ensures
        r@ == namespace_spec(),
        r@.len() == 6,
        all_lower_hex(r@),
{
    hash(FAMILY_NAMESPACE, PREFIX_SIZE)
}

/// An address from a single 58-character key hash.
pub open spec fn single_key_address_spec(tag: Seq<char>, key: Seq<char>) -> Seq<char> {
    namespace_spec() + tag + hash_spec(key, 58)
}

/// An address from a composite 22 + 36 character key hash.
pub open spec fn composite_key_address_spec(
    tag: Seq<char>,
    key_a: Seq<char>,
    key_b: Seq<char>,
) -> Seq<char> {
    namespace_spec() + tag + hash_spec(key_a, 22) + hash_spec(key_b, 36)
}

pub open spec fn organization_address_spec(organization_id: Seq<char>) -> Seq<char> {
    single_key_address_spec(organization_tag(), organization_id)
}

pub open spec fn participant_address_spec(public_key: Seq<char>) -> Seq<char> {
    single_key_address_spec(participant_tag(), public_key)
}

pub open spec fn bond_address_spec(bond_id: Seq<char>) -> Seq<char> {
    single_key_address_spec(bond_tag(), bond_id)
}

pub open spec fn holding_address_spec(organization_id: Seq<char>, asset_id: Seq<char>) -> Seq<
    char,
> {
    composite_key_address_spec(holding_tag(), organization_id, asset_id)
}

pub open spec fn settlement_address_spec(organization_id: Seq<char>, order_id: Seq<char>) -> Seq<
    char,
> {
    composite_key_address_spec(settlement_tag(), organization_id, order_id)
}

pub open spec fn receipt_address_spec(organization_id: Seq<char>, bond_id: Seq<char>) -> Seq<
    char,
> {
    composite_key_address_spec(receipt_tag(), organization_id, bond_id)
}

pub open spec fn quote_address_spec(organization_id: Seq<char>, bond_id: Seq<char>) -> Seq<char> {
    composite_key_address_spec(quote_tag(), organization_id, bond_id)
}

pub open spec fn order_address_spec(organization_id: Seq<char>, bond_id: Seq<char>) -> Seq<char> {
    composite_key_address_spec(order_tag(), organization_id, bond_id)
}

fn make_single_key_address(tag: String, key: &str) -> (r: String)
    requires
        tag@.len() == 6,
        all_lower_hex(tag@),
    ensures
        r@ == namespace_spec() + tag@ + hash_spec(key@, 58),
        r@.len() == 70,
        all_lower_hex(r@),
{
    let r = get_bond_namespace().concat(tag.as_str()).concat(hash(key, 58).as_str());
    proof {
        assert forall|i: int| 0 <= i < r@.len() implies is_lower_hex_char(#[trigger] r@[i]) by {
            if i < 6 {
                assert(r@[i] == namespace_spec()[i]);
            } else if i < 12 {
                assert(r@[i] == tag@[i - 6]);
            } else {
                assert(r@[i] == hash_spec(key@, 58)[i - 12]);
            }
        }
    }
    r
}

fn make_composite_key_address(tag: String, key_a: &str, key_b: &str) -> (r: String)
    requires
        tag@.len() == 6,
        all_lower_hex(tag@),
    ensures
        r@ == namespace_spec() + tag@ + hash_spec(key_a@, 22) + hash_spec(key_b@, 36),
        r@.len() == 70,
        all_lower_hex(r@),
{
    let r = get_bond_namespace().concat(tag.as_str()).concat(hash(key_a, 22).as_str()).concat(
        hash(key_b, 36).as_str(),
    );
    proof {
        assert forall|i: int| 0 <= i < r@.len() implies is_lower_hex_char(#[trigger] r@[i]) by {
            if i < 6 {
                assert(r@[i] == namespace_spec()[i]);
            } else if i < 12 {
                assert(r@[i] == tag@[i - 6]);
            } else if i < 34 {
                assert(r@[i] == hash_spec(key_a@, 22)[i - 12]);
            } else {
                assert(r@[i] == hash_spec(key_b@, 36)[i - 34]);
            }
        }
    }
    r
}

pub fn make_organization_address(organization_id: &str) -> (r: String)
    ensures
        r@ == organization_address_spec(organization_id@),
        r@.len() == 70,
        all_lower_hex(r@),
{
    make_single_key_address(hash(ORGANIZATION, PREFIX_SIZE), organization_id)
}

pub fn make_participant_address(public_key: &str) -> (r: String)
    ensures
        r@ == participant_address_spec(public_key@),
        r@.len() == 70,
        all_lower_hex(r@),
{
    make_single_key_address(hash(PARTICIPANT, PREFIX_SIZE), public_key)
}

pub fn make_bond_address(bond_id: &str) -> (r: String)
    ensures
        r@ == bond_address_spec(bond_id@),
        r@.len() == 70,
        all_lower_hex(r@),
{
    make_single_key_address(hash(BOND, PREFIX_SIZE), bond_id)
}

pub fn make_holding_address(organization_id: &str, asset_id: &str) -> (r: String)
    ensures
        r@ == holding_address_spec(organization_id@, asset_id@),
        r@.len() == 70,
        all_lower_hex(r@),
{
    make_composite_key_address(hash(HOLDING, PREFIX_SIZE), organization_id, asset_id)
}

pub fn make_settlement_address(organization_id: &str, order_id: &str) -> (r: String)
    ensures
        r@ == settlement_address_spec(organization_id@, order_id@),
        r@.len() == 70,
        all_lower_hex(r@),
{
    make_composite_key_address(hash(SETTLEMENT, PREFIX_SIZE), organization_id, order_id)
}

pub fn make_receipt_address(organization_id: &str, bond_id: &str) -> (r: String)
    ensures
        r@ == receipt_address_spec(organization_id@, bond_id@),
        r@.len() == 70,
        all_lower_hex(r@),
{
    make_composite_key_address(hash(RECEIPT, PREFIX_SIZE), organization_id, bond_id)
}

pub fn make_quote_address(organization_id: &str, bond_id: &str) -> (r: String)
    ensures
        r@ == quote_address_spec(organization_id@, bond_id@),
        r@.len() == 70,
        all_lower_hex(r@),
{
    make_composite_key_address(hash(QUOTE, PREFIX_SIZE), organization_id, bond_id)
}

pub fn make_order_address(organization_id: &str, bond_id: &str) -> (r: String)
    ensures
        r@ == order_address_spec(organization_id@, bond_id@),
        r@.len() == 70,
        all_lower_hex(r@),
{
    make_composite_key_address(hash(ORDER, PREFIX_SIZE), organization_id, bond_id)
}

/// The kind of state object an address stands for.
#[allow(non_camel_case_types)]
#[derive(Clone, Copy, Debug, PartialEq, Eq, Structural)]
pub enum AddressSpace {
    ORGANIZATION,
    PARTICIPANT,
    SETTLEMENT,
    HOLDING,
    RECEIPT,
    ORDER,
    QUOTE,
    BOND,
    ANOTHER_FAMILY,
}

/// Classification of an address by its 6-character type tag, trying each
/// known tag in a fixed order; addresses of other families fall through.
pub open spec fn classify_spec(a: Seq<char>) -> AddressSpace {
    let infix = a.subrange(6, 12);
    if infix == organization_tag() {
        AddressSpace::ORGANIZATION
    } else if infix == participant_tag() {
        AddressSpace::PARTICIPANT
    } else if infix == settlement_tag() {
        AddressSpace::SETTLEMENT
    } else if infix == holding_tag() {
        AddressSpace::HOLDING
    } else if infix == receipt_tag() {
        AddressSpace::RECEIPT
    } else if infix == order_tag() {
        AddressSpace::ORDER
    } else if infix == quote_tag() {
        AddressSpace::QUOTE
    } else if infix == bond_tag() {
        AddressSpace::BOND
    } else {
        AddressSpace::ANOTHER_FAMILY
    }
}

/// Takes in an address from state and returns the kind of state object the
/// address represents.
pub fn get_address_type(address: &str) -> (t: AddressSpace)
    requires
        address@.len() >= 12,
        vstd::utf8::is_ascii_chars(address@),
    ensures
        t == classify_spec(address@),
{
    let infix = address.substring_ascii(PREFIX_SIZE, PREFIX_SIZE * 2).to_owned();

    let organization_prefix = hash(ORGANIZATION, PREFIX_SIZE);
    let participant_prefix = hash(PARTICIPANT, PREFIX_SIZE);
    let settlement_prefix = hash(SETTLEMENT, PREFIX_SIZE);
    let holding_prefix = hash(HOLDING, PREFIX_SIZE);
    let receipt_prefix = hash(RECEIPT, PREFIX_SIZE);
    let order_prefix = hash(ORDER, PREFIX_SIZE);
    let quote_prefix = hash(QUOTE, PREFIX_SIZE);
    let bond_prefix = hash(BOND, PREFIX_SIZE);

    if infix == organization_prefix {
        AddressSpace::ORGANIZATION
    } else if infix == participant_prefix {
        AddressSpace::PARTICIPANT
    } else if infix == settlement_prefix {
        AddressSpace::SETTLEMENT
    } else if infix == holding_prefix {
        AddressSpace::HOLDING
    } else if infix == receipt_prefix {
        AddressSpace::RECEIPT
    } else if infix == order_prefix {
        AddressSpace::ORDER
    } else if infix == quote_prefix {
        AddressSpace::QUOTE
    } else if infix == bond_prefix {
        AddressSpace::BOND
    } else {
        AddressSpace::ANOTHER_FAMILY
    }
}

/// The eight type tags are pairwise distinct. This holds of the actual
/// SHA-256 digests (a runtime check confirms it); classification lemmas
/// assume it explicitly.
pub open spec fn type_tags_distinct() -> bool {
    &&& organization_tag() != participant_tag()
    &&& organization_tag() != settlement_tag()
    &&& organization_tag() != holding_tag()
    &&& organization_tag() != receipt_tag()
    &&& organization_tag() != order_tag()
    &&& organization_tag() != quote_tag()
    &&& organization_tag() != bond_tag()
    &&& participant_tag() != settlement_tag()
    &&& participant_tag() != holding_tag()
    &&& participant_tag() != receipt_tag()
    &&& participant_tag() != order_tag()
    &&& participant_tag() != quote_tag()
    &&& participant_tag() != bond_tag()
    &&& settlement_tag() != holding_tag()
    &&& settlement_tag() != receipt_tag()
    &&& settlement_tag() != order_tag()
    &&& settlement_tag() != quote_tag()
    &&& settlement_tag() != bond_tag()
    &&& holding_tag() != receipt_tag()
    &&& holding_tag() != order_tag()
    &&& holding_tag() != quote_tag()
    &&& holding_tag() != bond_tag()
    &&& receipt_tag() != order_tag()
    &&& receipt_tag() != quote_tag()
    &&& receipt_tag() != bond_tag()
    &&& order_tag() != quote_tag()
    &&& order_tag() != bond_tag()
    &&& quote_tag() != bond_tag()
}

/// Runtime check of `type_tags_distinct`: computes the eight tags and
/// compares them pairwise.
pub fn check_type_tags_distinct() -> (r: bool)
    ensures
        r == type_tags_distinct(),
{
    let organization_prefix = hash(ORGANIZATION, PREFIX_SIZE);
    let participant_prefix = hash(PARTICIPANT, PREFIX_SIZE);
    let settlement_prefix = hash(SETTLEMENT, PREFIX_SIZE);
    let holding_prefix = hash(HOLDING, PREFIX_SIZE);
    let receipt_prefix = hash(RECEIPT, PREFIX_SIZE);
    let order_prefix = hash(ORDER, PREFIX_SIZE);
    let quote_prefix = hash(QUOTE, PREFIX_SIZE);
    let bond_prefix = hash(BOND, PREFIX_SIZE);

    organization_prefix != participant_prefix && organization_prefix != settlement_prefix
        && organization_prefix != holding_prefix && organization_prefix != receipt_prefix
        && organization_prefix != order_prefix && organization_prefix != quote_prefix
        && organization_prefix != bond_prefix && participant_prefix != settlement_prefix
        && participant_prefix != holding_prefix && participant_prefix != receipt_prefix
        && participant_prefix != order_prefix && participant_prefix != quote_prefix
        && participant_prefix != bond_prefix && settlement_prefix != holding_prefix
        && settlement_prefix != receipt_prefix && settlement_prefix != order_prefix
        && settlement_prefix != quote_prefix && settlement_prefix != bond_prefix
        && holding_prefix != receipt_prefix && holding_prefix != order_prefix
        && holding_prefix != quote_prefix && holding_prefix != bond_prefix
        && receipt_prefix != order_prefix && receipt_prefix != quote_prefix
        && receipt_prefix != bond_prefix && order_prefix != quote_prefix
        && order_prefix != bond_prefix && quote_prefix != bond_prefix
}

/// Law: address derivation is deterministic. Equal natural keys give the
/// identical address, for every entity type.
pub proof fn lemma_address_determinism(
    k1: Seq<char>,
    k2: Seq<char>,
    ka1: Seq<char>,
    kb1: Seq<char>,
    ka2: Seq<char>,
    kb2: Seq<char>,
)
    requires
        k1 == k2,
        ka1 == ka2,
        kb1 == kb2,
    ensures
        organization_address_spec(k1) == organization_address_spec(k2),
        participant_address_spec(k1) == participant_address_spec(k2),
        bond_address_spec(k1) == bond_address_spec(k2),
        holding_address_spec(ka1, kb1) == holding_address_spec(ka2, kb2),
        settlement_address_spec(ka1, kb1) == settlement_address_spec(ka2, kb2),
        receipt_address_spec(ka1, kb1) == receipt_address_spec(ka2, kb2),
        quote_address_spec(ka1, kb1) == quote_address_spec(ka2, kb2),
        order_address_spec(ka1, kb1) == order_address_spec(ka2, kb2),
{
}

proof fn lemma_address_tag_slice(tag: Seq<char>, rest: Seq<char>)
    requires
        tag.len() == 6,
    ensures
        (namespace_spec() + tag + rest).subrange(6, 12) == tag,
{
    lemma_sha_hex_shape(FAMILY_NAMESPACE@);
    assert((namespace_spec() + tag + rest).subrange(6, 12) =~= tag);
}

/// Law: classification inverts derivation. Provided the eight type tags
/// are pairwise distinct (which `check_type_tags_distinct` confirms of the
/// actual digests), classifying an address derived for an entity type
/// yields that entity type.
pub proof fn lemma_classify_inverts_derive(k: Seq<char>, ka: Seq<char>, kb: Seq<char>)
    requires
        type_tags_distinct(),
    ensures
        classify_spec(organization_address_spec(k)) == AddressSpace::ORGANIZATION,
        classify_spec(participant_address_spec(k)) == AddressSpace::PARTICIPANT,
        classify_spec(bond_address_spec(k)) == AddressSpace::BOND,
        classify_spec(holding_address_spec(ka, kb)) == AddressSpace::HOLDING,
        classify_spec(settlement_address_spec(ka, kb)) == AddressSpace::SETTLEMENT,
        classify_spec(receipt_address_spec(ka, kb)) == AddressSpace::RECEIPT,
        classify_spec(quote_address_spec(ka, kb)) == AddressSpace::QUOTE,
        classify_spec(order_address_spec(ka, kb)) == AddressSpace::ORDER,
{
    lemma_address_tag_slice(organization_tag(), hash_spec(k, 58));
    lemma_address_tag_slice(participant_tag(), hash_spec(k, 58));
    lemma_address_tag_slice(bond_tag(), hash_spec(k, 58));
    let rest = hash_spec(ka, 22) + hash_spec(kb, 36);
    assert(holding_address_spec(ka, kb) =~= namespace_spec() + holding_tag() + rest);
    assert(settlement_address_spec(ka, kb) =~= namespace_spec() + settlement_tag() + rest);
    assert(receipt_address_spec(ka, kb) =~= namespace_spec() + receipt_tag() + rest);
    assert(quote_address_spec(ka, kb) =~= namespace_spec() + quote_tag() + rest);
    assert(order_address_spec(ka, kb) =~= namespace_spec() + order_tag() + rest);
    lemma_address_tag_slice(holding_tag(), rest);
    lemma_address_tag_slice(settlement_tag(), rest);
    lemma_address_tag_slice(receipt_tag(), rest);
    lemma_address_tag_slice(quote_tag(), rest);
    lemma_address_tag_slice(order_tag(), rest);
    lemma_sha_hex_shape(ORGANIZATION@);
    lemma_sha_hex_shape(PARTICIPANT@);
    lemma_sha_hex_shape(BOND@);
    lemma_sha_hex_shape(HOLDING@);
    lemma_sha_hex_shape(SETTLEMENT@);
    lemma_sha_hex_shape(RECEIPT@);
    lemma_sha_hex_shape(ORDER@);
    lemma_sha_hex_shape(QUOTE@);
}

} // verus!
