//! The state-change interpreter and projection pipeline.
//!
//! Given the decoded events delivered for one committed block, the
//! handler extracts the block descriptor, decodes the state-delta
//! payloads into raw mutations, keeps the mutations of this address
//! family, interprets each mutation as one typed operation, and hands
//! the block and its operations to the versioned store as one unit.
//! Any classification or decode failure aborts the whole block before
//! the store is touched.

use vstd::prelude::*;

use crate::addressing::{
    all_lower_hex, classify_spec, get_address_type, get_bond_namespace, lemma_hex_is_ascii,
    namespace_spec, AddressSpace,
};
use crate::codec::{
    dec_i64, decode_bond, decode_holding, decode_order, decode_organization, decode_participant,
    decode_quote, decode_receipt, decode_settlement, decode_state_change_list, parse_bond_msg,
    parse_holding_msg, parse_order_msg, parse_organization_msg, parse_participant_msg,
    parse_quote_msg, parse_receipt_msg, parse_settlement_msg, parse_state_change_list_value,
    AuthorizationMsg, AuthorizationMsgV, BondMsg, BondMsgV, CorporateDebtRatingMsg,
    CorporateDebtRatingMsgV, HoldingMsg, HoldingMsgV, OrderMsg, OrderMsgV, OrganizationMsg,
    OrganizationMsgV, ParticipantMsg, ParticipantMsgV, QuoteMsg, QuoteMsgV, ReceiptMsg,
    ReceiptMsgV, SettlementMsg, SettlementMsgV, StateChange, StateChangeKind, StateChangeV,
};
use crate::data_manager::{apply_spec, max_block, DataManager, OperationType, OpV};
use crate::models::{
    AuthorizationV, Block, BlockV, BondV, CorporateDebtRatingV, HoldingV, NewAuthorization,
    NewBond, NewCorporateDebtRating, NewHolding, NewOrder, NewOrganization, NewParticipant,
    NewQuote, NewReceipt, NewSettlement, OrderV, OrganizationV, ParticipantV, QuoteV, ReceiptV,
    SettlementV, MAX_BLOCK_NUM,
};

verus! {

/// Why a block's projection was rejected.
#[derive(Clone, Copy, Debug, PartialEq, Eq, Structural)]
pub enum ProjectionError {
    /// An address is too short, uses the wrong alphabet, or carries no
    /// known entity tag.
    MalformedAddress,
    /// Value bytes or event structure do not match the expected shape.
    PayloadDecodeError,
    /// The backing store failed; the block can be redelivered.
    StoreError,
}

/// One attribute of a delivered event.
pub struct EventAttribute {
    pub key: String,
    pub value: String,
}

pub struct EventAttributeV {
    pub key: Seq<char>,
    pub value: Seq<char>,
}

impl View for EventAttribute {
    type V = EventAttributeV;

    open spec fn view(&self) -> EventAttributeV {
        EventAttributeV { key: self.key@, value: self.value@ }
    }
}

impl DeepView for EventAttribute {
    type V = EventAttributeV;

    open spec fn deep_view(&self) -> EventAttributeV {
        self.view()
    }
}

/// One decoded event delivered by the ledger for a committed block.
pub struct Event {
    pub event_type: String,
    pub attributes: Vec<EventAttribute>,
    pub data: Vec<u8>,
}

pub struct EventV {
    pub event_type: Seq<char>,
    pub attributes: Seq<EventAttributeV>,
    pub data: Seq<u8>,
}

impl View for Event {
    type V = EventV;

    open spec fn view(&self) -> EventV {
        EventV {
            event_type: self.event_type@,
            attributes: self.attributes.deep_view(),
            data: self.data@,
        }
    }
}

impl DeepView for Event {
    type V = EventV;

    open spec fn deep_view(&self) -> EventV {
        self.view()
    }
}

/// The first event of the block-commit type, if any.
pub open spec fn first_block_commit(events: Seq<EventV>) -> Option<EventV>
    decreases events.len(),
{
    if events.len() == 0 {
        None
    } else if events[0].event_type == "sawtooth/block-commit"@ {
        Some(events[0])
    } else {
        first_block_commit(events.skip(1))
    }
}

/// The value of the first attribute with the given key, if any.
pub open spec fn find_attr(attrs: Seq<EventAttributeV>, key: Seq<char>) -> Option<Seq<char>>
    decreases attrs.len(),
{
    if attrs.len() == 0 {
        None
    } else if attrs[0].key == key {
        Some(attrs[0].value)
    } else {
        find_attr(attrs.skip(1), key)
    }
}

/// The block descriptor carried by the events: the first block-commit
/// event's `block_num` attribute read as a decimal integer, and its
/// `block_id` attribute.
pub open spec fn parse_block_spec(events: Seq<EventV>) -> Option<BlockV> {
    match first_block_commit(events) {
        None => None,
        Some(e) => match find_attr(e.attributes, "block_num"@) {
            None => None,
            Some(num_str) => match dec_i64(num_str) {
                None => None,
                Some(num) => match find_attr(e.attributes, "block_id"@) {
                    None => None,
                    Some(id) => Some(BlockV { block_num: num as int, block_id: id }),
                },
            },
        },
    }
}

proof fn lemma_first_block_commit_skip(events: Seq<EventV>, i: int)
    requires
        0 <= i <= events.len(),
        forall|j: int| 0 <= j < i ==> (#[trigger] events[j].event_type)
            != "sawtooth/block-commit"@,
    ensures
        first_block_commit(events) == first_block_commit(events.skip(i)),
    decreases i,
{
    if i == 0 {
        assert(events.skip(0) =~= events);
    } else {
        assert(events[0].event_type != "sawtooth/block-commit"@);
        assert forall|j: int| 0 <= j < i - 1 implies (#[trigger] events.skip(1)[j].event_type)
            != "sawtooth/block-commit"@ by {
            assert(events.skip(1)[j] == events[j + 1]);
        }
        lemma_first_block_commit_skip(events.skip(1), i - 1);
        assert(events.skip(1).skip(i - 1) =~= events.skip(i));
    }
}

proof fn lemma_find_attr_skip(attrs: Seq<EventAttributeV>, key: Seq<char>, i: int)
    requires
        0 <= i <= attrs.len(),
        forall|j: int| 0 <= j < i ==> (#[trigger] attrs[j].key) != key,
    ensures
        find_attr(attrs, key) == find_attr(attrs.skip(i), key),
    decreases i,
{
    if i == 0 {
        assert(attrs.skip(0) =~= attrs);
    } else {
        assert(attrs[0].key != key);
        assert forall|j: int| 0 <= j < i - 1 implies (#[trigger] attrs.skip(1)[j].key) != key by {
            assert(attrs.skip(1)[j] == attrs[j + 1]);
        }
        lemma_find_attr_skip(attrs.skip(1), key, i - 1);
        assert(attrs.skip(1).skip(i - 1) =~= attrs.skip(i));
    }
}

/// Looks up the value of the first attribute with the given key.
#[verifier::loop_isolation(false)]
fn find_attribute(attributes: &Vec<EventAttribute>, key: &str) -> (r: Option<String>)
    ensures
        match find_attr(attributes.deep_view(), key@) {
            Some(v) => r is Some && r.unwrap()@ == v,
            None => r is None,
        },
{
    let needle = key.to_owned();
    let mut i: usize = 0;
    while i < attributes.len()
        invariant
            i <= attributes.len(),
            forall|j: int| 0 <= j < i ==> (#[trigger] attributes.deep_view()[j].key) != key@,
        decreases attributes.len() - i,
    {
        let a = &attributes[i];
        proof {
            assert(a@ == attributes.deep_view()[i as int]);
        }
        if a.key == needle {
            proof {
                lemma_find_attr_skip(attributes.deep_view(), key@, i as int);
                assert(attributes.deep_view().skip(i as int)[0] == attributes.deep_view()[
                    i as int]);
            }
            return Some(a.value.clone());
        }
        i += 1;
    }
    proof {
        lemma_find_attr_skip(attributes.deep_view(), key@, attributes.deep_view().len() as int);
    }
    None
}

} // verus!

verus! {

/// Interprets the events of committed blocks and projects them into the
/// versioned store.
pub struct EventHandler {
    pub data_manager: DataManager,
}

pub open spec fn is_state_delta(e: EventV) -> bool {
    e.event_type == "sawtooth/state-delta"@
}

/// A mutation belongs to this address family when its address starts
/// with the family namespace.
pub open spec fn addr_in_family(a: Seq<char>) -> bool {
    a.len() >= 6 && a.subrange(0, 6) == namespace_spec()
}

/// The mutations of this family, in delivery order.
pub open spec fn family_changes(ms: Seq<StateChangeV>) -> Seq<StateChangeV>
    decreases ms.len(),
{
    if ms.len() == 0 {
        Seq::empty()
    } else {
        family_changes(ms.drop_last()) + (if addr_in_family(ms.last().address) {
            seq![ms.last()]
        } else {
            Seq::empty()
        })
    }
}

/// The family's raw mutations carried by the state-delta events, in
/// delivery order; a payload that is not a well-formed state change list
/// rejects the whole block.
pub open spec fn state_delta_spec(events: Seq<EventV>) -> Result<Seq<StateChangeV>, ProjectionError>
    decreases events.len(),
{
    if events.len() == 0 {
        Ok(Seq::empty())
    } else {
        match state_delta_spec(events.drop_last()) {
            Err(e) => Err(e),
            Ok(acc) => {
                if is_state_delta(events.last()) {
                    match parse_state_change_list_value(events.last().data) {
                        None => Err(ProjectionError::PayloadDecodeError),
                        Some(ms) => Ok(acc + family_changes(ms)),
                    }
                } else {
                    Ok(acc)
                }
            },
        }
    }
}

/// A rejection among the first `k` events rejects every longer prefix
/// with the same error.
proof fn lemma_state_delta_err_persists(events: Seq<EventV>, k: int)
    requires
        0 <= k <= events.len(),
        state_delta_spec(events.take(k)) is Err,
    ensures
        state_delta_spec(events) == state_delta_spec(events.take(k)),
    decreases events.len() - k,
{
    if k < events.len() {
        assert(events.take(k + 1).drop_last() =~= events.take(k));
        assert(events.take(k + 1).last() == events[k]);
        lemma_state_delta_err_persists(events, k + 1);
    } else {
        assert(events.take(k) =~= events);
    }
}

impl EventHandler {
    pub fn new(data_manager: DataManager) -> (r: EventHandler)
        ensures
            r.data_manager@ == data_manager@,
    {
        EventHandler { data_manager }
    }

    /// Extracts the block descriptor from the delivered events.
    #[verifier::loop_isolation(false)]
    pub fn parse_block(&self, events: &Vec<Event>) -> (r: Result<Block, ProjectionError>)
        ensures
            match parse_block_spec(events.deep_view()) {
                Some(bv) => r is Ok && r.unwrap()@ == bv,
                None => r == Err::<Block, ProjectionError>(ProjectionError::PayloadDecodeError),
            },
    {
        let needle = "sawtooth/block-commit".to_owned();
        let mut i: usize = 0;
        while i < events.len()
            invariant
                i <= events.len(),
                forall|j: int|
                    0 <= j < i ==> (#[trigger] events.deep_view()[j].event_type)
                        != "sawtooth/block-commit"@,
            decreases events.len() - i,
        {
            let e = &events[i];
            proof {
                assert(e@ == events.deep_view()[i as int]);
            }
            if e.event_type == needle {
                proof {
                    lemma_first_block_commit_skip(events.deep_view(), i as int);
                    assert(events.deep_view().skip(i as int)[0] == events.deep_view()[i as int]);
                }
                let num_str = match find_attribute(&e.attributes, "block_num") {
                    None => {
                        return Err(ProjectionError::PayloadDecodeError);
                    },
                    Some(v) => v,
                };
                let block_num = match crate::codec::parse_i64_dec(num_str.as_str()) {
                    None => {
                        return Err(ProjectionError::PayloadDecodeError);
                    },
                    Some(v) => v,
                };
                let block_id = match find_attribute(&e.attributes, "block_id") {
                    None => {
                        return Err(ProjectionError::PayloadDecodeError);
                    },
                    Some(v) => v,
                };
                return Ok(Block { block_num, block_id });
            }
            i += 1;
        }
        proof {
            lemma_first_block_commit_skip(events.deep_view(), events.deep_view().len() as int);
        }
        Err(ProjectionError::PayloadDecodeError)
    }
}

/// Tests whether an address starts with the family namespace.
#[verifier::loop_isolation(false)]
fn address_in_family(address: &String) -> (r: bool)
    ensures
        r == addr_in_family(address@),
{
    let ns = get_bond_namespace();
    if address.as_str().unicode_len() < 6 {
        return false;
    }
    let mut j: usize = 0;
    while j < 6
        invariant
            j <= 6,
            address@.len() >= 6,
            ns@ == namespace_spec(),
            forall|w: int| 0 <= w < j ==> address@[w] == namespace_spec()[w],
        decreases 6 - j,
    {
        if address.as_str().get_char(j) != ns.as_str().get_char(j) {
            proof {
                assert(address@[j as int] != namespace_spec()[j as int]);
                if addr_in_family(address@) {
                    assert(address@.subrange(0, 6)[j as int] == address@[j as int]);
                    assert(false);
                }
            }
            return false;
        }
        j += 1;
    }
    proof {
        assert(address@.subrange(0, 6) =~= namespace_spec());
    }
    true
}

impl EventHandler {
    /// Collects the family's raw mutations from the state-delta events.
    #[verifier::loop_isolation(false)]
    pub fn parse_state_delta_events(&self, events: &Vec<Event>) -> (r: Result<
        Vec<StateChange>,
        ProjectionError,
    >)
        ensures
            match state_delta_spec(events.deep_view()) {
                Ok(ms) => r is Ok && r.unwrap().deep_view() == ms,
                Err(e) => r == Err::<Vec<StateChange>, ProjectionError>(e),
            },
    {
        let needle = "sawtooth/state-delta".to_owned();
        let mut changes: Vec<StateChange> = Vec::new();
        proof {
            assert(changes.deep_view() =~= Seq::<StateChangeV>::empty());
            assert(events.deep_view().take(0).len() == 0);
        }
        let mut i: usize = 0;
        while i < events.len()
            invariant
                i <= events.len(),
                state_delta_spec(events.deep_view().take(i as int)) == Ok::<
                    Seq<StateChangeV>,
                    ProjectionError,
                >(changes.deep_view()),
            decreases events.len() - i,
        {
            let e = &events[i];
            proof {
                assert(e@ == events.deep_view()[i as int]);
                assert(events.deep_view().take(i as int + 1).drop_last() =~= events.deep_view()
                    .take(i as int));
                assert(events.deep_view().take(i as int + 1).last() == events.deep_view()[
                    i as int]);
            }
            if e.event_type == needle {
                let decoded = match decode_state_change_list(&e.data) {
                    Err(_) => {
                        proof {
                            lemma_state_delta_err_persists(events.deep_view(), i as int + 1);
                        }
                        return Err(ProjectionError::PayloadDecodeError);
                    },
                    Ok(v) => v,
                };
                let ghost ms = decoded.deep_view();
                let mut k: usize = 0;
                let ghost pre = changes.deep_view();
                while k < decoded.len()
                    invariant
                        k <= decoded.len(),
                        decoded.deep_view() == ms,
                        changes.deep_view() == pre + family_changes(ms.take(k as int)),
                    decreases decoded.len() - k,
                {
                    let c = &decoded[k];
                    proof {
                        assert(c@ == ms[k as int]);
                        assert(ms.take(k as int + 1).drop_last() =~= ms.take(k as int));
                        assert(ms.take(k as int + 1).last() == ms[k as int]);
                    }
                    let ghost before = changes.deep_view();
                    if address_in_family(&c.address) {
                        changes.push(c.clone());
                        proof {
                            assert(changes.deep_view() =~= before.push(ms[k as int]));
                            assert(before.push(ms[k as int]) =~= before + seq![ms[k as int]]);
                            assert(changes.deep_view() =~= pre + family_changes(
                                ms.take(k as int + 1),
                            ));
                        }
                    } else {
                        proof {
                            assert(family_changes(ms.take(k as int + 1)) =~= family_changes(
                                ms.take(k as int),
                            ));
                            assert(changes.deep_view() =~= pre + family_changes(
                                ms.take(k as int + 1),
                            ));
                        }
                    }
                    k += 1;
                }
                proof {
                    assert(ms.take(ms.len() as int) =~= ms);
                }
            }
            i += 1;
        }
        proof {
            assert(events.deep_view().take(events.deep_view().len() as int) =~= events
                .deep_view());
        }
        Ok(changes)
    }
}

} // verus!

verus! {

pub open spec fn organization_value(b: Seq<u8>) -> Option<OrganizationMsgV> {
    match parse_organization_msg(b, 0) {
        Some((m, p)) => if p == b.len() {
            Some(m)
        } else {
            None
        },
        None => None,
    }
}

pub open spec fn participant_value(b: Seq<u8>) -> Option<ParticipantMsgV> {
    match parse_participant_msg(b, 0) {
        Some((m, p)) => if p == b.len() {
            Some(m)
        } else {
            None
        },
        None => None,
    }
}

pub open spec fn settlement_value(b: Seq<u8>) -> Option<SettlementMsgV> {
    match parse_settlement_msg(b, 0) {
        Some((m, p)) => if p == b.len() {
            Some(m)
        } else {
            None
        },
        None => None,
    }
}

pub open spec fn holding_value(b: Seq<u8>) -> Option<HoldingMsgV> {
    match parse_holding_msg(b, 0) {
        Some((m, p)) => if p == b.len() {
            Some(m)
        } else {
            None
        },
        None => None,
    }
}

pub open spec fn order_value(b: Seq<u8>) -> Option<OrderMsgV> {
    match parse_order_msg(b, 0) {
        Some((m, p)) => if p == b.len() {
            Some(m)
        } else {
            None
        },
        None => None,
    }
}

pub open spec fn bond_value(b: Seq<u8>) -> Option<BondMsgV> {
    match parse_bond_msg(b, 0) {
        Some((m, p)) => if p == b.len() {
            Some(m)
        } else {
            None
        },
        None => None,
    }
}

pub open spec fn receipt_value(b: Seq<u8>) -> Option<ReceiptMsgV> {
    match parse_receipt_msg(b, 0) {
        Some((m, p)) => if p == b.len() {
            Some(m)
        } else {
            None
        },
        None => None,
    }
}

pub open spec fn quote_value(b: Seq<u8>) -> Option<QuoteMsgV> {
    match parse_quote_msg(b, 0) {
        Some((m, p)) => if p == b.len() {
            Some(m)
        } else {
            None
        },
        None => None,
    }
}

pub open spec fn new_organization_spec(m: OrganizationMsgV, b: BlockV) -> OrganizationV {
    OrganizationV {
        organization_id: m.organization_id,
        industry: m.industry,
        name: m.name,
        organization_type: m.organization_type,
        start_block_num: b.block_num,
        end_block_num: max_block(),
    }
}

pub open spec fn new_authorization_spec(
    a: AuthorizationMsgV,
    b: BlockV,
    organization_id: Seq<char>,
) -> AuthorizationV {
    AuthorizationV {
        organization_id: organization_id,
        participant_public_key: a.public_key,
        role: a.role,
        start_block_num: b.block_num,
        end_block_num: max_block(),
    }
}

pub open spec fn new_authorizations_spec(
    auths: Seq<AuthorizationMsgV>,
    b: BlockV,
    organization_id: Seq<char>,
) -> Seq<AuthorizationV> {
    auths.map_values(|a: AuthorizationMsgV| new_authorization_spec(a, b, organization_id))
}

pub open spec fn new_participant_spec(m: ParticipantMsgV, b: BlockV) -> ParticipantV {
    ParticipantV {
        public_key: m.public_key,
        organization_id: m.organization_id,
        username: m.username,
        start_block_num: b.block_num,
        end_block_num: max_block(),
    }
}

pub open spec fn new_settlement_spec(m: SettlementMsgV, b: BlockV) -> SettlementV {
    SettlementV {
        order_id: m.order_id,
        ordering_organization_id: m.ordering_organization_id,
        quoting_organization_id: m.quoting_organization_id,
        action: m.action,
        bond_quantity: m.bond_quantity,
        currency_amount: m.currency_amount,
        start_block_num: b.block_num,
        end_block_num: max_block(),
    }
}

pub open spec fn new_holding_spec(m: HoldingMsgV, b: BlockV, address: Seq<char>) -> HoldingV {
    HoldingV {
        owner_organization_id: m.organization_id,
        asset_id: m.asset_id,
        asset_type: m.asset_type,
        amount: m.amount,
        address: address,
        start_block_num: b.block_num,
        end_block_num: max_block(),
    }
}

pub open spec fn new_order_spec(m: OrderMsgV, b: BlockV) -> OrderV {
    OrderV {
        bond_id: m.bond_id,
        ordering_organization_id: m.ordering_organization_id,
        order_id: m.order_id,
        limit_price: m.limit_price,
        limit_yield: m.limit_yield,
        quantity: m.quantity,
        quote_id: m.quote_id,
        status: m.status,
        action: m.action,
        order_type: m.order_type,
        timestamp: m.timestamp,
        start_block_num: b.block_num,
        end_block_num: max_block(),
    }
}

pub open spec fn new_bond_spec(m: BondMsgV, b: BlockV) -> BondV {
    BondV {
        bond_id: m.bond_id,
        issuing_organization_id: m.issuing_organization_id,
        amount_outstanding: m.amount_outstanding,
        coupon_rate: m.coupon_rate,
        first_coupon_date: m.first_coupon_date,
        first_settlement_date: m.first_settlement_date,
        maturity_date: m.maturity_date,
        face_value: m.face_value,
        coupon_type: m.coupon_type,
        coupon_frequency: m.coupon_frequency,
        start_block_num: b.block_num,
        end_block_num: max_block(),
    }
}

pub open spec fn new_rating_spec(
    r: CorporateDebtRatingMsgV,
    b: BlockV,
    bond_id: Seq<char>,
) -> CorporateDebtRatingV {
    CorporateDebtRatingV {
        bond_id: bond_id,
        agency: r.agency,
        rating: r.rating,
        start_block_num: b.block_num,
        end_block_num: max_block(),
    }
}

pub open spec fn new_ratings_spec(
    ratings: Seq<CorporateDebtRatingMsgV>,
    b: BlockV,
    bond_id: Seq<char>,
) -> Seq<CorporateDebtRatingV> {
    ratings.map_values(|r: CorporateDebtRatingMsgV| new_rating_spec(r, b, bond_id))
}

pub open spec fn new_receipt_spec(m: ReceiptMsgV, b: BlockV) -> ReceiptV {
    ReceiptV {
        payee_organization_id: m.organization_id,
        bond_id: m.bond_id,
        payment_type: m.payment_type,
        coupon_date: m.coupon_date,
        amount: m.amount,
        timestamp: m.timestamp,
        start_block_num: b.block_num,
        end_block_num: max_block(),
    }
}

pub open spec fn new_quote_spec(m: QuoteMsgV, b: BlockV) -> QuoteV {
    QuoteV {
        bond_id: m.bond_id,
        organization_id: m.organization_id,
        ask_price: m.ask_price,
        ask_qty: m.ask_qty,
        bid_price: m.bid_price,
        bid_qty: m.bid_qty,
        status: m.status,
        timestamp: m.timestamp,
        start_block_num: b.block_num,
        end_block_num: max_block(),
    }
}

/// What one raw mutation means for the versioned store. A malformed or
/// unrecognized address rejects the mutation; a value that does not
/// decode as the classified entity rejects it; a holding deletion closes
/// the holding at that address; every other mutation inserts the decoded
/// record stamped open from this block.
pub open spec fn interpret_spec(sc: StateChangeV, b: BlockV) -> Result<OpV, ProjectionError> {
    if !(sc.address.len() == 70 && all_lower_hex(sc.address)) {
        Err(ProjectionError::MalformedAddress)
    } else {
        match classify_spec(sc.address) {
            AddressSpace::ORGANIZATION => match organization_value(sc.value) {
                None => Err(ProjectionError::PayloadDecodeError),
                Some(m) => Ok(
                    OpV::InsertOrganizations(
                        seq![
                            (
                                new_organization_spec(m, b),
                                new_authorizations_spec(m.authorizations, b, m.organization_id),
                            ),
                        ],
                    ),
                ),
            },
            AddressSpace::PARTICIPANT => match participant_value(sc.value) {
                None => Err(ProjectionError::PayloadDecodeError),
                Some(m) => Ok(OpV::InsertParticipants(seq![new_participant_spec(m, b)])),
            },
            AddressSpace::SETTLEMENT => match settlement_value(sc.value) {
                None => Err(ProjectionError::PayloadDecodeError),
                Some(m) => Ok(OpV::InsertSettlement(new_settlement_spec(m, b))),
            },
            AddressSpace::HOLDING => {
                if sc.kind == StateChangeKind::DELETE {
                    Ok(OpV::UpdateHolding(sc.address, b.block_num, max_block()))
                } else {
                    match holding_value(sc.value) {
                        None => Err(ProjectionError::PayloadDecodeError),
                        Some(m) => Ok(OpV::InsertHolding(new_holding_spec(m, b, sc.address))),
                    }
                }
            },
            AddressSpace::ORDER => match order_value(sc.value) {
                None => Err(ProjectionError::PayloadDecodeError),
                Some(m) => Ok(OpV::InsertOrder(new_order_spec(m, b))),
            },
            AddressSpace::BOND => match bond_value(sc.value) {
                None => Err(ProjectionError::PayloadDecodeError),
                Some(m) => Ok(
                    OpV::InsertBond(
                        new_bond_spec(m, b),
                        new_ratings_spec(m.corporate_debt_ratings, b, m.bond_id),
                    ),
                ),
            },
            AddressSpace::RECEIPT => match receipt_value(sc.value) {
                None => Err(ProjectionError::PayloadDecodeError),
                Some(m) => Ok(OpV::InsertReceipt(new_receipt_spec(m, b))),
            },
            AddressSpace::QUOTE => match quote_value(sc.value) {
                None => Err(ProjectionError::PayloadDecodeError),
                Some(m) => Ok(OpV::InsertQuote(new_quote_spec(m, b))),
            },
            AddressSpace::ANOTHER_FAMILY => Err(ProjectionError::MalformedAddress),
        }
    }
}

/// Tests whether an address is 70 lowercase hexadecimal characters.
#[verifier::loop_isolation(false)]
fn check_address(address: &String) -> (r: bool)
    ensures
        r == (address@.len() == 70 && all_lower_hex(address@)),
{
    if address.as_str().unicode_len() != 70 {
        return false;
    }
    let mut j: usize = 0;
    while j < 70
        invariant
            j <= 70,
            address@.len() == 70,
            forall|w: int| 0 <= w < j ==> crate::addressing::is_lower_hex_char(
                #[trigger] address@[w],
            ),
        decreases 70 - j,
    {
        let c = address.as_str().get_char(j);
        let u = c as u32;
        if !((48 <= u && u <= 57) || (97 <= u && u <= 102)) {
            proof {
                if all_lower_hex(address@) {
                    assert(crate::addressing::is_lower_hex_char(address@[j as int]));
                    assert(false);
                }
            }
            return false;
        }
        j += 1;
    }
    true
}

} // verus!

verus! {

impl EventHandler {
    fn get_new_organization(&self, org: &OrganizationMsg, block: &Block) -> (r: NewOrganization)
        ensures
            r@ == new_organization_spec(org@, block@),
    {
        NewOrganization {
            organization_id: org.organization_id.clone(),
            industry: org.industry.clone(),
            name: org.name.clone(),
            organization_type: org.organization_type,
            start_block_num: block.block_num,
            end_block_num: MAX_BLOCK_NUM,
        }
    }

    #[verifier::loop_isolation(false)]
    fn get_new_authorization(
        &self,
        auths: &Vec<AuthorizationMsg>,
        block: &Block,
        organization_id: &str,
    ) -> (r: Vec<NewAuthorization>)
        ensures
            r.deep_view() == new_authorizations_spec(auths.deep_view(), block@, organization_id@),
    {
        let mut authorization_list: Vec<NewAuthorization> = Vec::new();
        let mut i: usize = 0;
        while i < auths.len()
            invariant
                i <= auths.len(),
                authorization_list@.len() == i,
                forall|j: int|
                    0 <= j < i ==> (#[trigger] authorization_list@[j]@) == new_authorization_spec(
                        auths.deep_view()[j],
                        block@,
                        organization_id@,
                    ),
            decreases auths.len() - i,
        {
            let a = &auths[i];
            proof {
                assert(a@ == auths.deep_view()[i as int]);
            }
            authorization_list.push(
                NewAuthorization {
                    organization_id: organization_id.to_owned(),
                    participant_public_key: a.public_key.clone(),
                    role: a.role,
                    start_block_num: block.block_num,
                    end_block_num: MAX_BLOCK_NUM,
                },
            );
            i += 1;
        }
        proof {
            assert(authorization_list.deep_view() =~= new_authorizations_spec(
                auths.deep_view(),
                block@,
                organization_id@,
            ));
        }
        authorization_list
    }

    fn get_new_participant(&self, participant: &ParticipantMsg, block: &Block) -> (r:
        NewParticipant)
        ensures
            r@ == new_participant_spec(participant@, block@),
    {
        NewParticipant {
            public_key: participant.public_key.clone(),
            organization_id: participant.organization_id.clone(),
            username: participant.username.clone(),
            start_block_num: block.block_num,
            end_block_num: MAX_BLOCK_NUM,
        }
    }

    fn get_new_settlement(&self, settlement: &SettlementMsg, block: &Block) -> (r: NewSettlement)
        ensures
            r@ == new_settlement_spec(settlement@, block@),
    {
        NewSettlement {
            order_id: settlement.order_id.clone(),
            ordering_organization_id: settlement.ordering_organization_id.clone(),
            quoting_organization_id: settlement.quoting_organization_id.clone(),
            action: settlement.action,
            bond_quantity: settlement.bond_quantity,
            currency_amount: settlement.currency_amount,
            start_block_num: block.block_num,
            end_block_num: MAX_BLOCK_NUM,
        }
    }

    fn get_new_holding(&self, holding: &HoldingMsg, block: &Block, address: &str) -> (r:
        NewHolding)
        ensures
            r@ == new_holding_spec(holding@, block@, address@),
    {
        NewHolding {
            owner_organization_id: holding.organization_id.clone(),
            asset_id: holding.asset_id.clone(),
            asset_type: holding.asset_type,
            amount: holding.amount,
            address: address.to_owned(),
            start_block_num: block.block_num,
            end_block_num: MAX_BLOCK_NUM,
        }
    }

    fn get_new_order(&self, order: &OrderMsg, block: &Block) -> (r: NewOrder)
        ensures
            r@ == new_order_spec(order@, block@),
    {
        NewOrder {
            bond_id: order.bond_id.clone(),
            ordering_organization_id: order.ordering_organization_id.clone(),
            order_id: order.order_id.clone(),
            limit_price: order.limit_price,
            limit_yield: order.limit_yield,
            quantity: order.quantity,
            quote_id: order.quote_id.clone(),
            status: order.status,
            action: order.action,
            order_type: order.order_type,
            timestamp: order.timestamp,
            start_block_num: block.block_num,
            end_block_num: MAX_BLOCK_NUM,
        }
    }

    fn get_new_bond(&self, bond: &BondMsg, block: &Block) -> (r: NewBond)
        ensures
            r@ == new_bond_spec(bond@, block@),
    {
        NewBond {
            bond_id: bond.bond_id.clone(),
            issuing_organization_id: bond.issuing_organization_id.clone(),
            amount_outstanding: bond.amount_outstanding,
            coupon_rate: bond.coupon_rate,
            first_coupon_date: bond.first_coupon_date,
            first_settlement_date: bond.first_settlement_date,
            maturity_date: bond.maturity_date,
            face_value: bond.face_value,
            coupon_type: bond.coupon_type,
            coupon_frequency: bond.coupon_frequency,
            start_block_num: block.block_num,
            end_block_num: MAX_BLOCK_NUM,
        }
    }

    #[verifier::loop_isolation(false)]
    fn get_new_corporate_debt_ratings(
        &self,
        ratings: &Vec<CorporateDebtRatingMsg>,
        block: &Block,
        bond_id: &str,
    ) -> (r: Vec<NewCorporateDebtRating>)
        ensures
            r.deep_view() == new_ratings_spec(ratings.deep_view(), block@, bond_id@),
    {
        let mut new_ratings: Vec<NewCorporateDebtRating> = Vec::new();
        let mut i: usize = 0;
        while i < ratings.len()
            invariant
                i <= ratings.len(),
                new_ratings@.len() == i,
                forall|j: int|
                    0 <= j < i ==> (#[trigger] new_ratings@[j]@) == new_rating_spec(
                        ratings.deep_view()[j],
                        block@,
                        bond_id@,
                    ),
            decreases ratings.len() - i,
        {
            let rating = &ratings[i];
            proof {
                assert(rating@ == ratings.deep_view()[i as int]);
            }
            new_ratings.push(
                NewCorporateDebtRating {
                    bond_id: bond_id.to_owned(),
                    agency: rating.agency.clone(),
                    rating: rating.rating.clone(),
                    start_block_num: block.block_num,
                    end_block_num: MAX_BLOCK_NUM,
                },
            );
            i += 1;
        }
        proof {
            assert(new_ratings.deep_view() =~= new_ratings_spec(
                ratings.deep_view(),
                block@,
                bond_id@,
            ));
        }
        new_ratings
    }

    fn get_new_receipt(&self, receipt: &ReceiptMsg, block: &Block) -> (r: NewReceipt)
        ensures
            r@ == new_receipt_spec(receipt@, block@),
    {
        NewReceipt {
            payee_organization_id: receipt.organization_id.clone(),
            bond_id: receipt.bond_id.clone(),
            payment_type: receipt.payment_type,
            coupon_date: receipt.coupon_date,
            amount: receipt.amount,
            timestamp: receipt.timestamp,
            start_block_num: block.block_num,
            end_block_num: MAX_BLOCK_NUM,
        }
    }

    fn get_new_quote(&self, quote: &QuoteMsg, block: &Block) -> (r: NewQuote)
        ensures
            r@ == new_quote_spec(quote@, block@),
    {
        NewQuote {
            bond_id: quote.bond_id.clone(),
            organization_id: quote.organization_id.clone(),
            ask_price: quote.ask_price,
            ask_qty: quote.ask_qty,
            bid_price: quote.bid_price,
            bid_qty: quote.bid_qty,
            status: quote.status,
            timestamp: quote.timestamp,
            start_block_num: block.block_num,
            end_block_num: MAX_BLOCK_NUM,
        }
    }

    /// Interprets one raw mutation as one typed operation against the
    /// versioned store, exactly as `interpret_spec` describes.
    #[verifier::rlimit(60)]
    #[verifier::spinoff_prover]
    pub fn parse_transaction(&self, state: &StateChange, block: &Block) -> (r: Result<
        OperationType,
        ProjectionError,
    >)
        ensures
            match interpret_spec(state@, block@) {
                Ok(op) => r is Ok && r.unwrap()@ == op,
                Err(e) => r == Err::<OperationType, ProjectionError>(e),
            },
    {
        if !check_address(&state.address) {
            return Err(ProjectionError::MalformedAddress);
        }
        proof {
            lemma_hex_is_ascii(state@.address);
        }
        let address_type = get_address_type(state.address.as_str());
        match address_type {
            AddressSpace::ORGANIZATION => {
                let org = match decode_organization(&state.value) {
                    Err(_) => {
                        return Err(ProjectionError::PayloadDecodeError);
                    },
                    Ok(m) => m,
                };
                let new_org = self.get_new_organization(&org, block);
                let new_auths = self.get_new_authorization(
                    &org.authorizations,
                    block,
                    org.organization_id.as_str(),
                );
                let mut items: Vec<(NewOrganization, Vec<NewAuthorization>)> = Vec::new();
                items.push((new_org, new_auths));
                let transaction = OperationType::InsertOrganizations(items);
                proof {
                    assert(transaction@->InsertOrganizations_0 =~= seq![
                        (
                            new_organization_spec(org@, block@),
                            new_authorizations_spec(org@.authorizations, block@,
                            org@.organization_id),
                        ),
                    ]);
                }
                Ok(transaction)
            },
            AddressSpace::PARTICIPANT => {
                let participant = match decode_participant(&state.value) {
                    Err(_) => {
                        return Err(ProjectionError::PayloadDecodeError);
                    },
                    Ok(m) => m,
                };
                let new_participant = self.get_new_participant(&participant, block);
                let mut ps: Vec<NewParticipant> = Vec::new();
                ps.push(new_participant);
                let transaction = OperationType::InsertParticipants(ps);
                proof {
                    assert(transaction@->InsertParticipants_0 =~= seq![
                        new_participant_spec(participant@, block@),
                    ]);
                }
                Ok(transaction)
            },
            AddressSpace::SETTLEMENT => {
                let settlement = match decode_settlement(&state.value) {
                    Err(_) => {
                        return Err(ProjectionError::PayloadDecodeError);
                    },
                    Ok(m) => m,
                };
                Ok(OperationType::InsertSettlement(self.get_new_settlement(&settlement, block)))
            },
            AddressSpace::HOLDING => {
                match state.kind {
                    StateChangeKind::DELETE => {
                        Ok(
                            OperationType::UpdateHolding(
                                state.address.clone(),
                                block.block_num,
                                MAX_BLOCK_NUM,
                            ),
                        )
                    },
                    _ => {
                        let holding = match decode_holding(&state.value) {
                            Err(_) => {
                                return Err(ProjectionError::PayloadDecodeError);
                            },
                            Ok(m) => m,
                        };
                        let new_holding = self.get_new_holding(
                            &holding,
                            block,
                            state.address.as_str(),
                        );
                        Ok(OperationType::InsertHolding(new_holding))
                    },
                }
            },
            AddressSpace::ORDER => {
                let order = match decode_order(&state.value) {
                    Err(_) => {
                        return Err(ProjectionError::PayloadDecodeError);
                    },
                    Ok(m) => m,
                };
                Ok(OperationType::InsertOrder(self.get_new_order(&order, block)))
            },
            AddressSpace::BOND => {
                let bond = match decode_bond(&state.value) {
                    Err(_) => {
                        return Err(ProjectionError::PayloadDecodeError);
                    },
                    Ok(m) => m,
                };
                let new_bond = self.get_new_bond(&bond, block);
                let new_ratings = self.get_new_corporate_debt_ratings(
                    &bond.corporate_debt_ratings,
                    block,
                    bond.bond_id.as_str(),
                );
                Ok(OperationType::InsertBond(new_bond, new_ratings))
            },
            AddressSpace::RECEIPT => {
                let receipt = match decode_receipt(&state.value) {
                    Err(_) => {
                        return Err(ProjectionError::PayloadDecodeError);
                    },
                    Ok(m) => m,
                };
                Ok(OperationType::InsertReceipt(self.get_new_receipt(&receipt, block)))
            },
            AddressSpace::QUOTE => {
                let quote = match decode_quote(&state.value) {
                    Err(_) => {
                        return Err(ProjectionError::PayloadDecodeError);
                    },
                    Ok(m) => m,
                };
                Ok(OperationType::InsertQuote(self.get_new_quote(&quote, block)))
            },
            AddressSpace::ANOTHER_FAMILY => Err(ProjectionError::MalformedAddress),
        }
    }
}

/// The typed operations for the family's raw mutations, in order; the
/// first rejected mutation rejects the whole block.
pub open spec fn interpret_all(changes: Seq<StateChangeV>, b: BlockV) -> Result<
    Seq<OpV>,
    ProjectionError,
>
    decreases changes.len(),
{
    if changes.len() == 0 {
        Ok(Seq::empty())
    } else {
        match interpret_all(changes.drop_last(), b) {
            Err(e) => Err(e),
            Ok(ops) => match interpret_spec(changes.last(), b) {
                Err(e) => Err(e),
                Ok(op) => Ok(ops.push(op)),
            },
        }
    }
}

proof fn lemma_interpret_all_err_persists(changes: Seq<StateChangeV>, b: BlockV, k: int)
    requires
        0 <= k <= changes.len(),
        interpret_all(changes.take(k), b) is Err,
    ensures
        interpret_all(changes, b) == interpret_all(changes.take(k), b),
    decreases changes.len() - k,
{
    if k < changes.len() {
        assert(changes.take(k + 1).drop_last() =~= changes.take(k));
        assert(changes.take(k + 1).last() == changes[k]);
        lemma_interpret_all_err_persists(changes, b, k + 1);
    } else {
        assert(changes.take(k) =~= changes);
    }
}

/// The outcome one block's events call for: the block descriptor and its
/// typed operations, or the error that rejects the whole block.
pub open spec fn events_outcome(events: Seq<EventV>) -> Result<
    (BlockV, Seq<OpV>),
    ProjectionError,
> {
    match parse_block_spec(events) {
        None => Err(ProjectionError::PayloadDecodeError),
        Some(b) => match state_delta_spec(events) {
            Err(e) => Err(e),
            Ok(cs) => match interpret_all(cs, b) {
                Err(e) => Err(e),
                Ok(ops) => Ok((b, ops)),
            },
        },
    }
}

impl EventHandler {
    /// Projects one committed block's events into the versioned store as
    /// a single atomic unit. On any rejection the store is untouched:
    /// nothing of the block is partially applied.
    #[verifier::rlimit(60)]
    #[verifier::spinoff_prover]
    #[verifier::loop_isolation(false)]
    pub fn parse_events(&mut self, events: &Vec<Event>) -> (r: Result<(), ProjectionError>)
        ensures
            match events_outcome(events.deep_view()) {
                Ok(bops) => r is Ok && final(self).data_manager@ == apply_spec(
                    old(self).data_manager@,
                    bops.1,
                    bops.0,
                ),
                Err(e) => r == Err::<(), ProjectionError>(e) && final(self).data_manager@ == old(
                    self,
                ).data_manager@,
            },
    {
        let block = match self.parse_block(events) {
            Err(e) => {
                return Err(e);
            },
            Ok(b) => b,
        };
        let state_changes = match self.parse_state_delta_events(events) {
            Err(e) => {
                return Err(e);
            },
            Ok(cs) => cs,
        };
        let ghost cs = state_changes.deep_view();
        let mut transactions: Vec<OperationType> = Vec::new();
        proof {
            assert(transactions.deep_view() =~= Seq::<OpV>::empty());
            assert(cs.take(0).len() == 0);
        }
        let mut i: usize = 0;
        while i < state_changes.len()
            invariant
                i <= state_changes.len(),
                state_changes.deep_view() == cs,
                interpret_all(cs.take(i as int), block@) == Ok::<Seq<OpV>, ProjectionError>(
                    transactions.deep_view(),
                ),
            decreases state_changes.len() - i,
        {
            let sc = &state_changes[i];
            proof {
                assert(sc@ == cs[i as int]);
                assert(cs.take(i as int + 1).drop_last() =~= cs.take(i as int));
                assert(cs.take(i as int + 1).last() == cs[i as int]);
            }
            let ghost pre = transactions.deep_view();
            let transaction = match self.parse_transaction(sc, &block) {
                Err(e) => {
                    proof {
                        lemma_interpret_all_err_persists(cs, block@, i as int + 1);
                    }
                    return Err(e);
                },
                Ok(t) => t,
            };
            transactions.push(transaction);
            i += 1;
            proof {
                assert(transactions.deep_view() =~= pre.push(transaction@));
            }
        }
        proof {
            assert(cs.take(cs.len() as int) =~= cs);
        }
        let res = self.data_manager.execute_transactions_in_block(transactions, &block);
        if res.is_err() {
            return Err(ProjectionError::StoreError);
        }
        Ok(())
    }
}

} // verus!
