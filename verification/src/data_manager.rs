//! The versioned ledger store.
//!
//! `DataManager` owns the block table and one history of versioned rows
//! (the chain records). A block is admitted as one atomic unit: the store
//! resolves the incoming block against previously recorded blocks
//! (new / duplicate / fork), rolls an abandoned branch back if necessary,
//! applies every operation by closing superseded versions and inserting
//! new open versions, and finally records the block itself.
//!
//! Every mutation is specified against `apply_spec`, a functional model
//! of block admission over the store's view.

use vstd::prelude::*;

use crate::models::{
    AuthorizationV, Block, BlockV, BondV, CorporateDebtRatingV, HoldingV, MAX_BLOCK_NUM,
    NewAuthorization, NewBond, NewCorporateDebtRating, NewHolding, NewOrder, NewOrganization,
    NewParticipant, NewQuote, NewReceipt, NewSettlement, OrderV, OrganizationV, ParticipantV,
    QuoteV, ReceiptV, SettlementV,
};

verus! {

/// Entity table a chain record belongs to.
pub enum TableKind {
    Organization,
    Authorization,
    Participant,
    Bond,
    CorporateDebtRating,
    Holding,
    Order,
    Quote,
    Settlement,
    Receipt,
}

/// Natural key of a chain record at the specification level: the entity
/// table together with one or two identifying character sequences.
pub struct RecordKey {
    pub kind: TableKind,
    pub a: Seq<char>,
    pub b: Seq<char>,
}

/// One versioned row of the relational history, over all entity tables.
pub enum ChainRecord {
    Organization(NewOrganization),
    Authorization(NewAuthorization),
    Participant(NewParticipant),
    Bond(NewBond),
    CorporateDebtRating(NewCorporateDebtRating),
    Holding(NewHolding),
    Order(NewOrder),
    Quote(NewQuote),
    Settlement(NewSettlement),
    Receipt(NewReceipt),
}

/// View of a chain record.
pub enum ChainRecordV {
    Organization(OrganizationV),
    Authorization(AuthorizationV),
    Participant(ParticipantV),
    Bond(BondV),
    CorporateDebtRating(CorporateDebtRatingV),
    Holding(HoldingV),
    Order(OrderV),
    Quote(QuoteV),
    Settlement(SettlementV),
    Receipt(ReceiptV),
}

impl View for ChainRecord {
    type V = ChainRecordV;

    open spec fn view(&self) -> ChainRecordV {
        match self {
            ChainRecord::Organization(o) => ChainRecordV::Organization(o@),
            ChainRecord::Authorization(a) => ChainRecordV::Authorization(a@),
            ChainRecord::Participant(p) => ChainRecordV::Participant(p@),
            ChainRecord::Bond(b) => ChainRecordV::Bond(b@),
            ChainRecord::CorporateDebtRating(r) => ChainRecordV::CorporateDebtRating(r@),
            ChainRecord::Holding(h) => ChainRecordV::Holding(h@),
            ChainRecord::Order(o) => ChainRecordV::Order(o@),
            ChainRecord::Quote(q) => ChainRecordV::Quote(q@),
            ChainRecord::Settlement(s) => ChainRecordV::Settlement(s@),
            ChainRecord::Receipt(r) => ChainRecordV::Receipt(r@),
        }
    }
}

impl DeepView for ChainRecord {
    type V = ChainRecordV;

    open spec fn deep_view(&self) -> ChainRecordV {
        self.view()
    }
}

impl Clone for ChainRecord {
    fn clone(&self) -> (r: Self)
        ensures
            r@ == self@,
    {
        match self {
            ChainRecord::Organization(o) => ChainRecord::Organization(o.clone()),
            ChainRecord::Authorization(a) => ChainRecord::Authorization(a.clone()),
            ChainRecord::Participant(p) => ChainRecord::Participant(p.clone()),
            ChainRecord::Bond(b) => ChainRecord::Bond(b.clone()),
            ChainRecord::CorporateDebtRating(r) => ChainRecord::CorporateDebtRating(r.clone()),
            ChainRecord::Holding(h) => ChainRecord::Holding(h.clone()),
            ChainRecord::Order(o) => ChainRecord::Order(o.clone()),
            ChainRecord::Quote(q) => ChainRecord::Quote(q.clone()),
            ChainRecord::Settlement(s) => ChainRecord::Settlement(s.clone()),
            ChainRecord::Receipt(r) => ChainRecord::Receipt(r.clone()),
        }
    }
}

/// Natural key of a chain record as an executable value.
pub enum NaturalKey {
    Organization { organization_id: String },
    Authorization { organization_id: String, participant_public_key: String },
    Participant { public_key: String },
    Bond { bond_id: String },
    CorporateDebtRating { bond_id: String, agency: String },
    Holding { address: String },
    Order { ordering_organization_id: String, bond_id: String },
    Quote { organization_id: String, bond_id: String },
    Settlement { ordering_organization_id: String, order_id: String },
    Receipt { payee_organization_id: String, bond_id: String },
}

impl View for NaturalKey {
    type V = RecordKey;

    open spec fn view(&self) -> RecordKey {
        match self {
            NaturalKey::Organization { organization_id } => RecordKey {
                kind: TableKind::Organization,
                a: organization_id@,
                b: Seq::empty(),
            },
            NaturalKey::Authorization { organization_id, participant_public_key } => RecordKey {
                kind: TableKind::Authorization,
                a: organization_id@,
                b: participant_public_key@,
            },
            NaturalKey::Participant { public_key } => RecordKey {
                kind: TableKind::Participant,
                a: public_key@,
                b: Seq::empty(),
            },
            NaturalKey::Bond { bond_id } => RecordKey {
                kind: TableKind::Bond,
                a: bond_id@,
                b: Seq::empty(),
            },
            NaturalKey::CorporateDebtRating { bond_id, agency } => RecordKey {
                kind: TableKind::CorporateDebtRating,
                a: bond_id@,
                b: agency@,
            },
            NaturalKey::Holding { address } => RecordKey {
                kind: TableKind::Holding,
                a: address@,
                b: Seq::empty(),
            },
            NaturalKey::Order { ordering_organization_id, bond_id } => RecordKey {
                kind: TableKind::Order,
                a: ordering_organization_id@,
                b: bond_id@,
            },
            NaturalKey::Quote { organization_id, bond_id } => RecordKey {
                kind: TableKind::Quote,
                a: organization_id@,
                b: bond_id@,
            },
            NaturalKey::Settlement { ordering_organization_id, order_id } => RecordKey {
                kind: TableKind::Settlement,
                a: ordering_organization_id@,
                b: order_id@,
            },
            NaturalKey::Receipt { payee_organization_id, bond_id } => RecordKey {
                kind: TableKind::Receipt,
                a: payee_organization_id@,
                b: bond_id@,
            },
        }
    }
}

/// Natural key of a versioned row: which open version a new row of the
/// same entity supersedes.
pub open spec fn rec_key(r: ChainRecordV) -> RecordKey {
    match r {
        ChainRecordV::Organization(o) => RecordKey {
            kind: TableKind::Organization,
            a: o.organization_id,
            b: Seq::empty(),
        },
        ChainRecordV::Authorization(a) => RecordKey {
            kind: TableKind::Authorization,
            a: a.organization_id,
            b: a.participant_public_key,
        },
        ChainRecordV::Participant(p) => RecordKey {
            kind: TableKind::Participant,
            a: p.public_key,
            b: Seq::empty(),
        },
        ChainRecordV::Bond(b) => RecordKey { kind: TableKind::Bond, a: b.bond_id, b: Seq::empty() },
        ChainRecordV::CorporateDebtRating(r) => RecordKey {
            kind: TableKind::CorporateDebtRating,
            a: r.bond_id,
            b: r.agency,
        },
        ChainRecordV::Holding(h) => RecordKey {
            kind: TableKind::Holding,
            a: h.address,
            b: Seq::empty(),
        },
        ChainRecordV::Order(o) => RecordKey {
            kind: TableKind::Order,
            a: o.ordering_organization_id,
            b: o.bond_id,
        },
        ChainRecordV::Quote(q) => RecordKey {
            kind: TableKind::Quote,
            a: q.organization_id,
            b: q.bond_id,
        },
        ChainRecordV::Settlement(s) => RecordKey {
            kind: TableKind::Settlement,
            a: s.ordering_organization_id,
            b: s.order_id,
        },
        ChainRecordV::Receipt(r) => RecordKey {
            kind: TableKind::Receipt,
            a: r.payee_organization_id,
            b: r.bond_id,
        },
    }
}

/// First block number at which a row is valid.
pub open spec fn start_of(r: ChainRecordV) -> int {
    match r {
        ChainRecordV::Organization(o) => o.start_block_num,
        ChainRecordV::Authorization(a) => a.start_block_num,
        ChainRecordV::Participant(p) => p.start_block_num,
        ChainRecordV::Bond(b) => b.start_block_num,
        ChainRecordV::CorporateDebtRating(r) => r.start_block_num,
        ChainRecordV::Holding(h) => h.start_block_num,
        ChainRecordV::Order(o) => o.start_block_num,
        ChainRecordV::Quote(q) => q.start_block_num,
        ChainRecordV::Settlement(s) => s.start_block_num,
        ChainRecordV::Receipt(r) => r.start_block_num,
    }
}

/// First block number at which a row is no longer valid
/// (`MAX_BLOCK_NUM` when the row is the open version).
pub open spec fn end_of(r: ChainRecordV) -> int {
    match r {
        ChainRecordV::Organization(o) => o.end_block_num,
        ChainRecordV::Authorization(a) => a.end_block_num,
        ChainRecordV::Participant(p) => p.end_block_num,
        ChainRecordV::Bond(b) => b.end_block_num,
        ChainRecordV::CorporateDebtRating(r) => r.end_block_num,
        ChainRecordV::Holding(h) => h.end_block_num,
        ChainRecordV::Order(o) => o.end_block_num,
        ChainRecordV::Quote(q) => q.end_block_num,
        ChainRecordV::Settlement(s) => s.end_block_num,
        ChainRecordV::Receipt(r) => r.end_block_num,
    }
}

/// The same row with its validity window closed at `end`.
pub open spec fn set_end(r: ChainRecordV, end: int) -> ChainRecordV {
    match r {
        ChainRecordV::Organization(o) => ChainRecordV::Organization(
            OrganizationV { end_block_num: end, ..o },
        ),
        ChainRecordV::Authorization(a) => ChainRecordV::Authorization(
            AuthorizationV { end_block_num: end, ..a },
        ),
        ChainRecordV::Participant(p) => ChainRecordV::Participant(
            ParticipantV { end_block_num: end, ..p },
        ),
        ChainRecordV::Bond(b) => ChainRecordV::Bond(BondV { end_block_num: end, ..b }),
        ChainRecordV::CorporateDebtRating(r) => ChainRecordV::CorporateDebtRating(
            CorporateDebtRatingV { end_block_num: end, ..r },
        ),
        ChainRecordV::Holding(h) => ChainRecordV::Holding(HoldingV { end_block_num: end, ..h }),
        ChainRecordV::Order(o) => ChainRecordV::Order(OrderV { end_block_num: end, ..o }),
        ChainRecordV::Quote(q) => ChainRecordV::Quote(QuoteV { end_block_num: end, ..q }),
        ChainRecordV::Settlement(s) => ChainRecordV::Settlement(
            SettlementV { end_block_num: end, ..s },
        ),
        ChainRecordV::Receipt(r) => ChainRecordV::Receipt(ReceiptV { end_block_num: end, ..r }),
    }
}

pub proof fn lemma_set_end(r: ChainRecordV, end: int)
    ensures
        rec_key(set_end(r, end)) == rec_key(r),
        start_of(set_end(r, end)) == start_of(r),
        end_of(set_end(r, end)) == end,
{
}

/// The sentinel as a mathematical integer.
pub open spec fn max_block() -> int {
    MAX_BLOCK_NUM as int
}

/// One row after the close pass for key `k`: a row of that key whose
/// window ends at `max` is closed at `current`; every other row is kept.
pub open spec fn close_one(r: ChainRecordV, k: RecordKey, current: int, max: int) -> ChainRecordV {
    if rec_key(r) == k && end_of(r) == max {
        set_end(r, current)
    } else {
        r
    }
}

/// The close pass over a whole history.
pub open spec fn close_key(
    rs: Seq<ChainRecordV>,
    k: RecordKey,
    current: int,
    max: int,
) -> Seq<ChainRecordV> {
    rs.map_values(|r: ChainRecordV| close_one(r, k, current, max))
}

/// A primitive effect on the history: insert a row after closing the open
/// version it supersedes, or close a version without inserting.
pub enum ActionV {
    Upsert(ChainRecordV),
    CloseOnly(RecordKey, int, int),
}

/// The key an action touches.
pub open spec fn action_key(a: ActionV) -> RecordKey {
    match a {
        ActionV::Upsert(r) => rec_key(r),
        ActionV::CloseOnly(k, current, max) => k,
    }
}

/// An action is stamped for block `n` when it inserts rows open from `n`
/// and closes superseded versions at `n`.
pub open spec fn action_stamped(a: ActionV, n: int) -> bool {
    match a {
        ActionV::Upsert(r) => start_of(r) == n && end_of(r) == max_block(),
        ActionV::CloseOnly(k, current, max) => current == n && max == max_block(),
    }
}

/// Effect of one action.
pub open spec fn step_action(rs: Seq<ChainRecordV>, a: ActionV) -> Seq<ChainRecordV> {
    match a {
        ActionV::Upsert(r) => close_key(rs, rec_key(r), start_of(r), end_of(r)).push(r),
        ActionV::CloseOnly(k, current, max) => close_key(rs, k, current, max),
    }
}

/// Effect of a list of actions, applied in order.
pub open spec fn run_actions(rs: Seq<ChainRecordV>, acts: Seq<ActionV>) -> Seq<ChainRecordV>
    decreases acts.len(),
{
    if acts.len() == 0 {
        rs
    } else {
        step_action(run_actions(rs, acts.drop_last()), acts.last())
    }
}

pub proof fn lemma_run_actions_concat(rs: Seq<ChainRecordV>, a: Seq<ActionV>, b: Seq<ActionV>)
    ensures
        run_actions(rs, a + b) == run_actions(run_actions(rs, a), b),
    decreases b.len(),
{
    if b.len() == 0 {
        assert(a + b =~= a);
    } else {
        assert((a + b).drop_last() =~= a + b.drop_last());
        assert((a + b).last() == b.last());
        lemma_run_actions_concat(rs, a, b.drop_last());
    }
}

} // verus!

verus! {

/// A typed operation against the versioned store, carrying fully-formed
/// stamped rows.
pub enum OperationType {
    InsertParticipants(Vec<NewParticipant>),
    InsertOrganizations(Vec<(NewOrganization, Vec<NewAuthorization>)>),
    InsertBond(NewBond, Vec<NewCorporateDebtRating>),
    InsertHolding(NewHolding),
    UpdateHolding(String, i64, i64),
    InsertOrder(NewOrder),
    InsertQuote(NewQuote),
    InsertSettlement(NewSettlement),
    InsertReceipt(NewReceipt),
}

/// View of an operation.
pub enum OpV {
    InsertParticipants(Seq<ParticipantV>),
    InsertOrganizations(Seq<(OrganizationV, Seq<AuthorizationV>)>),
    InsertBond(BondV, Seq<CorporateDebtRatingV>),
    InsertHolding(HoldingV),
    UpdateHolding(Seq<char>, int, int),
    InsertOrder(OrderV),
    InsertQuote(QuoteV),
    InsertSettlement(SettlementV),
    InsertReceipt(ReceiptV),
}

impl View for OperationType {
    type V = OpV;

    open spec fn view(&self) -> OpV {
        match self {
            OperationType::InsertParticipants(ps) => OpV::InsertParticipants(ps.deep_view()),
            OperationType::InsertOrganizations(items) => OpV::InsertOrganizations(
                items.deep_view(),
            ),
            OperationType::InsertBond(b, ratings) => OpV::InsertBond(b@, ratings.deep_view()),
            OperationType::InsertHolding(h) => OpV::InsertHolding(h@),
            OperationType::UpdateHolding(address, current, max) => OpV::UpdateHolding(
                address@,
                *current as int,
                *max as int,
            ),
            OperationType::InsertOrder(o) => OpV::InsertOrder(o@),
            OperationType::InsertQuote(q) => OpV::InsertQuote(q@),
            OperationType::InsertSettlement(s) => OpV::InsertSettlement(s@),
            OperationType::InsertReceipt(r) => OpV::InsertReceipt(r@),
        }
    }
}

impl DeepView for OperationType {
    type V = OpV;

    open spec fn deep_view(&self) -> OpV {
        self.view()
    }
}

pub open spec fn participant_actions(ps: Seq<ParticipantV>) -> Seq<ActionV>
    decreases ps.len(),
{
    if ps.len() == 0 {
        Seq::empty()
    } else {
        participant_actions(ps.drop_last()).push(
            ActionV::Upsert(ChainRecordV::Participant(ps.last())),
        )
    }
}

pub open spec fn authorization_actions(auths: Seq<AuthorizationV>) -> Seq<ActionV>
    decreases auths.len(),
{
    if auths.len() == 0 {
        Seq::empty()
    } else {
        authorization_actions(auths.drop_last()).push(
            ActionV::Upsert(ChainRecordV::Authorization(auths.last())),
        )
    }
}

pub open spec fn rating_actions(ratings: Seq<CorporateDebtRatingV>) -> Seq<ActionV>
    decreases ratings.len(),
{
    if ratings.len() == 0 {
        Seq::empty()
    } else {
        rating_actions(ratings.drop_last()).push(
            ActionV::Upsert(ChainRecordV::CorporateDebtRating(ratings.last())),
        )
    }
}

/// Actions of one organization with its authorizations: the organization
/// row first, then each authorization row.
pub open spec fn organization_item_actions(item: (OrganizationV, Seq<AuthorizationV>)) -> Seq<
    ActionV,
> {
    seq![ActionV::Upsert(ChainRecordV::Organization(item.0))] + authorization_actions(item.1)
}

pub open spec fn organization_actions(items: Seq<(OrganizationV, Seq<AuthorizationV>)>) -> Seq<
    ActionV,
>
    decreases items.len(),
{
    if items.len() == 0 {
        Seq::empty()
    } else {
        organization_actions(items.drop_last()) + organization_item_actions(items.last())
    }
}

/// The key a close-only holding operation addresses: holdings are closed
/// by their state address.
pub open spec fn holding_close_key(address: Seq<char>) -> RecordKey {
    RecordKey { kind: TableKind::Holding, a: address, b: Seq::empty() }
}

/// The primitive actions an operation performs, in execution order.
pub open spec fn op_actions(op: OpV) -> Seq<ActionV> {
    match op {
        OpV::InsertParticipants(ps) => participant_actions(ps),
        OpV::InsertOrganizations(items) => organization_actions(items),
        OpV::InsertBond(b, ratings) => seq![ActionV::Upsert(ChainRecordV::Bond(b))]
            + rating_actions(ratings),
        OpV::InsertHolding(h) => seq![ActionV::Upsert(ChainRecordV::Holding(h))],
        OpV::UpdateHolding(address, current, max) => seq![
            ActionV::CloseOnly(holding_close_key(address), current, max),
        ],
        OpV::InsertOrder(o) => seq![ActionV::Upsert(ChainRecordV::Order(o))],
        OpV::InsertQuote(q) => seq![ActionV::Upsert(ChainRecordV::Quote(q))],
        OpV::InsertSettlement(s) => seq![ActionV::Upsert(ChainRecordV::Settlement(s))],
        OpV::InsertReceipt(r) => seq![ActionV::Upsert(ChainRecordV::Receipt(r))],
    }
}

pub open spec fn ops_actions(ops: Seq<OpV>) -> Seq<ActionV>
    decreases ops.len(),
{
    if ops.len() == 0 {
        Seq::empty()
    } else {
        ops_actions(ops.drop_last()) + op_actions(ops.last())
    }
}

/// The participant rows of a history, in order.
pub open spec fn participants_of(rs: Seq<ChainRecordV>) -> Seq<ParticipantV>
    decreases rs.len(),
{
    if rs.len() == 0 {
        Seq::empty()
    } else {
        participants_of(rs.drop_last()) + (match rs.last() {
            ChainRecordV::Participant(p) => seq![p],
            _ => Seq::empty(),
        })
    }
}

/// The organization rows of a history, in order.
pub open spec fn organizations_of(rs: Seq<ChainRecordV>) -> Seq<OrganizationV>
    decreases rs.len(),
{
    if rs.len() == 0 {
        Seq::empty()
    } else {
        organizations_of(rs.drop_last()) + (match rs.last() {
            ChainRecordV::Organization(o) => seq![o],
            _ => Seq::empty(),
        })
    }
}

/// The authorization rows of a history, in order.
pub open spec fn authorizations_of(rs: Seq<ChainRecordV>) -> Seq<AuthorizationV>
    decreases rs.len(),
{
    if rs.len() == 0 {
        Seq::empty()
    } else {
        authorizations_of(rs.drop_last()) + (match rs.last() {
            ChainRecordV::Authorization(a) => seq![a],
            _ => Seq::empty(),
        })
    }
}

/// The holding rows of a history, in order.
pub open spec fn holdings_of(rs: Seq<ChainRecordV>) -> Seq<HoldingV>
    decreases rs.len(),
{
    if rs.len() == 0 {
        Seq::empty()
    } else {
        holdings_of(rs.drop_last()) + (match rs.last() {
            ChainRecordV::Holding(h) => seq![h],
            _ => Seq::empty(),
        })
    }
}

/// View of the whole store.
pub struct StoreV {
    pub blocks: Seq<BlockV>,
    pub records: Seq<ChainRecordV>,
}

/// First recorded block with the given number, if any.
pub open spec fn find_block(bs: Seq<BlockV>, n: int) -> Option<BlockV>
    decreases bs.len(),
{
    if bs.len() == 0 {
        None
    } else if bs[0].block_num == n {
        Some(bs[0])
    } else {
        find_block(bs.skip(1), n)
    }
}

/// Fork rollback over the history: rows created at or after the fork
/// point are deleted, rows the abandoned branch had closed at or after it
/// are reopened.
pub open spec fn rollback_one(r: ChainRecordV, n: int) -> Seq<ChainRecordV> {
    if start_of(r) >= n {
        Seq::empty()
    } else if end_of(r) >= n {
        seq![set_end(r, max_block())]
    } else {
        seq![r]
    }
}

pub open spec fn rollback_records(rs: Seq<ChainRecordV>, n: int) -> Seq<ChainRecordV>
    decreases rs.len(),
{
    if rs.len() == 0 {
        Seq::empty()
    } else {
        rollback_records(rs.drop_last(), n) + rollback_one(rs.last(), n)
    }
}

/// Fork rollback over the block table: blocks at or after the fork point
/// are deleted.
pub open spec fn rollback_blocks(bs: Seq<BlockV>, n: int) -> Seq<BlockV>
    decreases bs.len(),
{
    if bs.len() == 0 {
        Seq::empty()
    } else if bs.last().block_num >= n {
        rollback_blocks(bs.drop_last(), n)
    } else {
        rollback_blocks(bs.drop_last(), n).push(bs.last())
    }
}

/// Functional model of one block admission: the state machine
/// new / duplicate / fork, then the operations in order, then the block
/// row itself.
pub open spec fn apply_spec(st: StoreV, ops: Seq<OpV>, b: BlockV) -> StoreV {
    match find_block(st.blocks, b.block_num) {
        Some(existing) => {
            if existing.block_id == b.block_id {
                st
            } else {
                StoreV {
                    blocks: rollback_blocks(st.blocks, b.block_num).push(b),
                    records: run_actions(
                        rollback_records(st.records, b.block_num),
                        ops_actions(ops),
                    ),
                }
            }
        },
        None => StoreV {
            blocks: st.blocks.push(b),
            records: run_actions(st.records, ops_actions(ops)),
        },
    }
}

} // verus!

verus! {

/// Error surfaced by the backing store. The in-memory store cannot fail,
/// so no method ever returns it; callers built for a transactional
/// backing store keep the `Result` shape.
#[derive(Clone, Copy, Debug, PartialEq, Eq, Structural)]
pub enum DatabaseError {
    StoreError,
}

fn key_matches(r: &ChainRecord, key: &NaturalKey) -> (res: bool)
    ensures
        res == (rec_key(r@) == key@),
{
    match (r, key) {
        (ChainRecord::Organization(o), NaturalKey::Organization { organization_id }) => {
            o.organization_id == *organization_id
        },
        (
            ChainRecord::Authorization(a),
            NaturalKey::Authorization { organization_id, participant_public_key },
        ) => {
            a.organization_id == *organization_id && a.participant_public_key
                == *participant_public_key
        },
        (ChainRecord::Participant(p), NaturalKey::Participant { public_key }) => {
            p.public_key == *public_key
        },
        (ChainRecord::Bond(b), NaturalKey::Bond { bond_id }) => b.bond_id == *bond_id,
        (
            ChainRecord::CorporateDebtRating(r),
            NaturalKey::CorporateDebtRating { bond_id, agency },
        ) => r.bond_id == *bond_id && r.agency == *agency,
        (ChainRecord::Holding(h), NaturalKey::Holding { address }) => h.address == *address,
        (ChainRecord::Order(o), NaturalKey::Order { ordering_organization_id, bond_id }) => {
            o.ordering_organization_id == *ordering_organization_id && o.bond_id == *bond_id
        },
        (ChainRecord::Quote(q), NaturalKey::Quote { organization_id, bond_id }) => {
            q.organization_id == *organization_id && q.bond_id == *bond_id
        },
        (
            ChainRecord::Settlement(s),
            NaturalKey::Settlement { ordering_organization_id, order_id },
        ) => {
            s.ordering_organization_id == *ordering_organization_id && s.order_id == *order_id
        },
        (ChainRecord::Receipt(r), NaturalKey::Receipt { payee_organization_id, bond_id }) => {
            r.payee_organization_id == *payee_organization_id && r.bond_id == *bond_id
        },
        _ => false,
    }
}

fn record_start(r: &ChainRecord) -> (res: i64)
    ensures
        res as int == start_of(r@),
{
    match r {
        ChainRecord::Organization(o) => o.start_block_num,
        ChainRecord::Authorization(a) => a.start_block_num,
        ChainRecord::Participant(p) => p.start_block_num,
        ChainRecord::Bond(b) => b.start_block_num,
        ChainRecord::CorporateDebtRating(r) => r.start_block_num,
        ChainRecord::Holding(h) => h.start_block_num,
        ChainRecord::Order(o) => o.start_block_num,
        ChainRecord::Quote(q) => q.start_block_num,
        ChainRecord::Settlement(s) => s.start_block_num,
        ChainRecord::Receipt(r) => r.start_block_num,
    }
}

fn record_end(r: &ChainRecord) -> (res: i64)
    ensures
        res as int == end_of(r@),
{
    match r {
        ChainRecord::Organization(o) => o.end_block_num,
        ChainRecord::Authorization(a) => a.end_block_num,
        ChainRecord::Participant(p) => p.end_block_num,
        ChainRecord::Bond(b) => b.end_block_num,
        ChainRecord::CorporateDebtRating(r) => r.end_block_num,
        ChainRecord::Holding(h) => h.end_block_num,
        ChainRecord::Order(o) => o.end_block_num,
        ChainRecord::Quote(q) => q.end_block_num,
        ChainRecord::Settlement(s) => s.end_block_num,
        ChainRecord::Receipt(r) => r.end_block_num,
    }
}

fn with_end(r: &ChainRecord, end_block_num: i64) -> (res: ChainRecord)
    ensures
        res@ == set_end(r@, end_block_num as int),
{
    match r {
        ChainRecord::Organization(o) => ChainRecord::Organization(
            NewOrganization { end_block_num, ..o.clone() },
        ),
        ChainRecord::Authorization(a) => ChainRecord::Authorization(
            NewAuthorization { end_block_num, ..a.clone() },
        ),
        ChainRecord::Participant(p) => ChainRecord::Participant(
            NewParticipant { end_block_num, ..p.clone() },
        ),
        ChainRecord::Bond(b) => ChainRecord::Bond(NewBond { end_block_num, ..b.clone() }),
        ChainRecord::CorporateDebtRating(r) => ChainRecord::CorporateDebtRating(
            NewCorporateDebtRating { end_block_num, ..r.clone() },
        ),
        ChainRecord::Holding(h) => ChainRecord::Holding(
            NewHolding { end_block_num, ..h.clone() },
        ),
        ChainRecord::Order(o) => ChainRecord::Order(NewOrder { end_block_num, ..o.clone() }),
        ChainRecord::Quote(q) => ChainRecord::Quote(NewQuote { end_block_num, ..q.clone() }),
        ChainRecord::Settlement(s) => ChainRecord::Settlement(
            NewSettlement { end_block_num, ..s.clone() },
        ),
        ChainRecord::Receipt(r) => ChainRecord::Receipt(
            NewReceipt { end_block_num, ..r.clone() },
        ),
    }
}

/// The versioned ledger store over an in-memory history.
pub struct DataManager {
    records: Vec<ChainRecord>,
    blocks: Vec<Block>,
}

impl View for DataManager {
    type V = StoreV;

    closed spec fn view(&self) -> StoreV {
        StoreV { blocks: self.blocks.deep_view(), records: self.records.deep_view() }
    }
}

impl DataManager {
    /// An empty store: no blocks recorded, no versioned rows.
    pub fn new() -> (r: DataManager)
        ensures
            r@.blocks.len() == 0,
            r@.records.len() == 0,
    {
        DataManager { records: Vec::new(), blocks: Vec::new() }
    }

    /// Closes every open-at-`max_block_num` version of `key` at
    /// `current_block_num`; a no-op when no such version exists.
    fn close_open(&mut self, key: &NaturalKey, current_block_num: i64, max_block_num: i64)
        ensures
            final(self)@.records == close_key(
                old(self)@.records,
                key@,
                current_block_num as int,
                max_block_num as int,
            ),
            final(self)@.blocks == old(self)@.blocks,
    {
        let ghost rs0 = self@.records;
        let mut out: Vec<ChainRecord> = Vec::new();
        let mut i: usize = 0;
        while i < self.records.len()
            invariant
                i <= self.records.len(),
                self.records.deep_view() == rs0,
                self.blocks.deep_view() == old(self)@.blocks,
                out@.len() == i,
                forall|j: int|
                    0 <= j < i ==> #[trigger] out@[j]@ == close_one(
                        rs0[j],
                        key@,
                        current_block_num as int,
                        max_block_num as int,
                    ),
            decreases self.records.len() - i,
        {
            let r = &self.records[i];
            proof {
                assert(rs0[i as int] == self.records@[i as int].deep_view());
            }
            if key_matches(r, key) && record_end(r) == max_block_num {
                out.push(with_end(r, current_block_num));
            } else {
                out.push(r.clone());
            }
            i += 1;
        }
        self.records = out;
        proof {
            assert forall|j: int| 0 <= j < rs0.len() implies #[trigger] self@.records[j]
                == close_one(rs0[j], key@, current_block_num as int, max_block_num as int) by {
                assert(self@.records[j] == self.records@[j]@);
            }
            assert(self@.records =~= close_key(
                rs0,
                key@,
                current_block_num as int,
                max_block_num as int,
            ));
        }
    }

    /// Closes the open version of the participant with this public key.
    fn update_participant(
        &mut self,
        public_key: &str,
        current_block_num: i64,
        max_block_num: i64,
    ) -> (r: Result<(), DatabaseError>)
        ensures
            r is Ok,
            final(self)@.records == close_key(
                old(self)@.records,
                (RecordKey { kind: TableKind::Participant, a: public_key@, b: Seq::empty() }),
                current_block_num as int,
                max_block_num as int,
            ),
            final(self)@.blocks == old(self)@.blocks,
    {
        let key = NaturalKey::Participant { public_key: public_key.to_owned() };
        self.close_open(&key, current_block_num, max_block_num);
        Ok(())
    }

    /// Closes the open versions of the participants' rows, then inserts
    /// the new open rows.
    fn insert_participant(&mut self, participants: Vec<NewParticipant>) -> (r: Result<
        (),
        DatabaseError,
    >)
        ensures
            r is Ok,
            final(self)@.records == run_actions(
                old(self)@.records,
                participant_actions(participants.deep_view()),
            ),
            final(self)@.blocks == old(self)@.blocks,
    {
        let ghost ps0 = participants.deep_view();
        let ghost rs0 = self@.records;
        let mut ps = participants;
        let ghost mut done: int = 0;
        while ps.len() > 0
            invariant
                0 <= done,
                done + ps@.len() == ps0.len(),
                ps.deep_view() == ps0.skip(done),
                self@.records == run_actions(rs0, participant_actions(ps0.take(done))),
                self@.blocks == old(self)@.blocks,
            decreases ps.len(),
        {
            let ghost pre = ps.deep_view();
            let p = ps.remove(0);
            proof {
                assert(p@ == pre[0]);
                assert(p@ == ps0[done]);
                assert(ps.deep_view() =~= pre.skip(1));
            }
            let res = self.update_participant(
                p.public_key.as_str(),
                p.start_block_num,
                p.end_block_num,
            );
            if res.is_err() {
                return res;
            }
            self.records.push(ChainRecord::Participant(p));
            proof {
                done = done + 1;
            }
            proof {
                assert(ps.deep_view() =~= ps0.skip(done));
                let d = done;
                let acts = participant_actions(ps0.take(d - 1));
                let act = ActionV::Upsert(ChainRecordV::Participant(ps0[d - 1]));
                assert(ps0.take(d).drop_last() =~= ps0.take(d - 1));
                assert(participant_actions(ps0.take(d)) == acts.push(act));
                assert(acts.push(act).drop_last() =~= acts);
                assert(run_actions(rs0, acts.push(act)) == step_action(
                    run_actions(rs0, acts),
                    act,
                ));
                assert(self@.records =~= step_action(run_actions(rs0, acts), act));
            }
        }
        proof {
            assert(ps0.take(done) =~= ps0);
        }
        Ok(())
    }

    /// Closes the open version of the organization with this identifier.
    fn update_organization(
        &mut self,
        organization_id: &str,
        current_block_num: i64,
        max_block_num: i64,
    ) -> (r: Result<(), DatabaseError>)
        ensures
            r is Ok,
            final(self)@.records == close_key(
                old(self)@.records,
                (RecordKey { kind: TableKind::Organization, a: organization_id@, b: Seq::empty() }),
                current_block_num as int,
                max_block_num as int,
            ),
            final(self)@.blocks == old(self)@.blocks,
    {
        let key = NaturalKey::Organization { organization_id: organization_id.to_owned() };
        self.close_open(&key, current_block_num, max_block_num);
        Ok(())
    }

    /// Closes the superseded organization version and inserts the new
    /// open row.
    fn insert_organization(&mut self, organization: &NewOrganization) -> (r: Result<
        (),
        DatabaseError,
    >)
        ensures
            r is Ok,
            final(self)@.records == step_action(
                old(self)@.records,
                ActionV::Upsert(ChainRecordV::Organization(organization@)),
            ),
            final(self)@.blocks == old(self)@.blocks,
    {
        let res = self.update_organization(
            organization.organization_id.as_str(),
            organization.start_block_num,
            organization.end_block_num,
        );
        if res.is_err() {
            return res;
        }
        self.records.push(ChainRecord::Organization(organization.clone()));
        proof {
            assert(self@.records =~= step_action(
                old(self)@.records,
                ActionV::Upsert(ChainRecordV::Organization(organization@)),
            ));
        }
        Ok(())
    }

    /// Closes the open version of the authorization for this organization
    /// and participant.
    fn update_authorization(
        &mut self,
        organization_id: &str,
        participant_public_key: &str,
        current_block_num: i64,
        max_block_num: i64,
    ) -> (r: Result<(), DatabaseError>)
        ensures
            r is Ok,
            final(self)@.records == close_key(
                old(self)@.records,
                (RecordKey {
                    kind: TableKind::Authorization,
                    a: organization_id@,
                    b: participant_public_key@,
                }),
                current_block_num as int,
                max_block_num as int,
            ),
            final(self)@.blocks == old(self)@.blocks,
    {
        let key = NaturalKey::Authorization {
            organization_id: organization_id.to_owned(),
            participant_public_key: participant_public_key.to_owned(),
        };
        self.close_open(&key, current_block_num, max_block_num);
        Ok(())
    }

    /// Closes the open versions of the authorizations' rows, then inserts
    /// the new open rows.
    fn insert_authorization(&mut self, authorizations: Vec<NewAuthorization>) -> (r: Result<
        (),
        DatabaseError,
    >)
        ensures
            r is Ok,
            final(self)@.records == run_actions(
                old(self)@.records,
                authorization_actions(authorizations.deep_view()),
            ),
            final(self)@.blocks == old(self)@.blocks,
    {
        let ghost as0 = authorizations.deep_view();
        let ghost rs0 = self@.records;
        let mut auths = authorizations;
        let ghost mut done: int = 0;
        while auths.len() > 0
            invariant
                0 <= done,
                done + auths@.len() == as0.len(),
                auths.deep_view() == as0.skip(done),
                self@.records == run_actions(rs0, authorization_actions(as0.take(done))),
                self@.blocks == old(self)@.blocks,
            decreases auths.len(),
        {
            let ghost pre = auths.deep_view();
            let a = auths.remove(0);
            proof {
                assert(a@ == pre[0]);
                assert(a@ == as0[done]);
                assert(auths.deep_view() =~= pre.skip(1));
            }
            let res = self.update_authorization(
                a.organization_id.as_str(),
                a.participant_public_key.as_str(),
                a.start_block_num,
                a.end_block_num,
            );
            if res.is_err() {
                return res;
            }
            self.records.push(ChainRecord::Authorization(a));
            proof {
                done = done + 1;
            }
            proof {
                assert(auths.deep_view() =~= as0.skip(done));
                let d = done;
                let acts = authorization_actions(as0.take(d - 1));
                let act = ActionV::Upsert(ChainRecordV::Authorization(as0[d - 1]));
                assert(as0.take(d).drop_last() =~= as0.take(d - 1));
                assert(authorization_actions(as0.take(d)) == acts.push(act));
                assert(acts.push(act).drop_last() =~= acts);
                assert(run_actions(rs0, acts.push(act)) == step_action(
                    run_actions(rs0, acts),
                    act,
                ));
                assert(self@.records =~= step_action(run_actions(rs0, acts), act));
            }
        }
        proof {
            assert(as0.take(done) =~= as0);
        }
        Ok(())
    }

    /// Closes the superseded bond version and inserts the new open row.
    fn insert_bond(&mut self, bond: &NewBond) -> (r: Result<(), DatabaseError>)
        ensures
            r is Ok,
            final(self)@.records == step_action(
                old(self)@.records,
                ActionV::Upsert(ChainRecordV::Bond(bond@)),
            ),
            final(self)@.blocks == old(self)@.blocks,
    {
        let key = NaturalKey::Bond { bond_id: bond.bond_id.clone() };
        self.close_open(&key, bond.start_block_num, bond.end_block_num);
        self.records.push(ChainRecord::Bond(bond.clone()));
        proof {
            assert(self@.records =~= step_action(
                old(self)@.records,
                ActionV::Upsert(ChainRecordV::Bond(bond@)),
            ));
        }
        Ok(())
    }

    /// Closes the open versions of the ratings' rows, then inserts the
    /// new open rows.
    fn insert_corporate_debt_ratings(
        &mut self,
        ratings: Vec<NewCorporateDebtRating>,
    ) -> (r: Result<(), DatabaseError>)
        ensures
            r is Ok,
            final(self)@.records == run_actions(
                old(self)@.records,
                rating_actions(ratings.deep_view()),
            ),
            final(self)@.blocks == old(self)@.blocks,
    {
        let ghost cs0 = ratings.deep_view();
        let ghost rs0 = self@.records;
        let mut cs = ratings;
        let ghost mut done: int = 0;
        while cs.len() > 0
            invariant
                0 <= done,
                done + cs@.len() == cs0.len(),
                cs.deep_view() == cs0.skip(done),
                self@.records == run_actions(rs0, rating_actions(cs0.take(done))),
                self@.blocks == old(self)@.blocks,
            decreases cs.len(),
        {
            let ghost pre = cs.deep_view();
            let c = cs.remove(0);
            proof {
                assert(c@ == pre[0]);
                assert(c@ == cs0[done]);
                assert(cs.deep_view() =~= pre.skip(1));
            }
            let key = NaturalKey::CorporateDebtRating {
                bond_id: c.bond_id.clone(),
                agency: c.agency.clone(),
            };
            self.close_open(&key, c.start_block_num, c.end_block_num);
            self.records.push(ChainRecord::CorporateDebtRating(c));
            proof {
                done = done + 1;
            }
            proof {
                assert(cs.deep_view() =~= cs0.skip(done));
                let d = done;
                let acts = rating_actions(cs0.take(d - 1));
                let act = ActionV::Upsert(ChainRecordV::CorporateDebtRating(cs0[d - 1]));
                assert(cs0.take(d).drop_last() =~= cs0.take(d - 1));
                assert(rating_actions(cs0.take(d)) == acts.push(act));
                assert(acts.push(act).drop_last() =~= acts);
                assert(run_actions(rs0, acts.push(act)) == step_action(
                    run_actions(rs0, acts),
                    act,
                ));
                assert(self@.records =~= step_action(run_actions(rs0, acts), act));
            }
        }
        proof {
            assert(cs0.take(done) =~= cs0);
        }
        Ok(())
    }

    /// Closes the superseded holding version (found by state address) and
    /// inserts the new open row.
    fn insert_holding(&mut self, holding: NewHolding) -> (r: Result<(), DatabaseError>)
        ensures
            r is Ok,
            final(self)@.records == step_action(
                old(self)@.records,
                ActionV::Upsert(ChainRecordV::Holding(holding@)),
            ),
            final(self)@.blocks == old(self)@.blocks,
    {
        let key = NaturalKey::Holding { address: holding.address.clone() };
        self.close_open(&key, holding.start_block_num, holding.end_block_num);
        self.records.push(ChainRecord::Holding(holding));
        proof {
            assert(self@.records =~= step_action(
                old(self)@.records,
                ActionV::Upsert(ChainRecordV::Holding(holding@)),
            ));
        }
        Ok(())
    }

    /// Closes the open holding at this state address without inserting a
    /// replacement: the explicit terminal transition of a holding.
    fn update_holding(
        &mut self,
        address: &str,
        current_block_num: i64,
        max_block_num: i64,
    ) -> (r: Result<(), DatabaseError>)
        ensures
            r is Ok,
            final(self)@.records == close_key(
                old(self)@.records,
                holding_close_key(address@),
                current_block_num as int,
                max_block_num as int,
            ),
            final(self)@.blocks == old(self)@.blocks,
    {
        let key = NaturalKey::Holding { address: address.to_owned() };
        self.close_open(&key, current_block_num, max_block_num);
        Ok(())
    }

    /// Closes the superseded order version and inserts the new open row.
    fn insert_order(&mut self, order: NewOrder) -> (r: Result<(), DatabaseError>)
        ensures
            r is Ok,
            final(self)@.records == step_action(
                old(self)@.records,
                ActionV::Upsert(ChainRecordV::Order(order@)),
            ),
            final(self)@.blocks == old(self)@.blocks,
    {
        let key = NaturalKey::Order {
            ordering_organization_id: order.ordering_organization_id.clone(),
            bond_id: order.bond_id.clone(),
        };
        self.close_open(&key, order.start_block_num, order.end_block_num);
        self.records.push(ChainRecord::Order(order));
        proof {
            assert(self@.records =~= step_action(
                old(self)@.records,
                ActionV::Upsert(ChainRecordV::Order(order@)),
            ));
        }
        Ok(())
    }

    /// Closes the superseded quote version and inserts the new open row.
    fn insert_quote(&mut self, quote: NewQuote) -> (r: Result<(), DatabaseError>)
        ensures
            r is Ok,
            final(self)@.records == step_action(
                old(self)@.records,
                ActionV::Upsert(ChainRecordV::Quote(quote@)),
            ),
            final(self)@.blocks == old(self)@.blocks,
    {
        let key = NaturalKey::Quote {
            organization_id: quote.organization_id.clone(),
            bond_id: quote.bond_id.clone(),
        };
        self.close_open(&key, quote.start_block_num, quote.end_block_num);
        self.records.push(ChainRecord::Quote(quote));
        proof {
            assert(self@.records =~= step_action(
                old(self)@.records,
                ActionV::Upsert(ChainRecordV::Quote(quote@)),
            ));
        }
        Ok(())
    }

    /// Closes the superseded settlement version and inserts the new open
    /// row.
    fn insert_settlement(&mut self, settlement: NewSettlement) -> (r: Result<(), DatabaseError>)
        ensures
            r is Ok,
            final(self)@.records == step_action(
                old(self)@.records,
                ActionV::Upsert(ChainRecordV::Settlement(settlement@)),
            ),
            final(self)@.blocks == old(self)@.blocks,
    {
        let key = NaturalKey::Settlement {
            ordering_organization_id: settlement.ordering_organization_id.clone(),
            order_id: settlement.order_id.clone(),
        };
        self.close_open(&key, settlement.start_block_num, settlement.end_block_num);
        self.records.push(ChainRecord::Settlement(settlement));
        proof {
            assert(self@.records =~= step_action(
                old(self)@.records,
                ActionV::Upsert(ChainRecordV::Settlement(settlement@)),
            ));
        }
        Ok(())
    }

    /// Closes the superseded receipt version and inserts the new open
    /// row.
    fn insert_receipt(&mut self, receipt: NewReceipt) -> (r: Result<(), DatabaseError>)
        ensures
            r is Ok,
            final(self)@.records == step_action(
                old(self)@.records,
                ActionV::Upsert(ChainRecordV::Receipt(receipt@)),
            ),
            final(self)@.blocks == old(self)@.blocks,
    {
        let key = NaturalKey::Receipt {
            payee_organization_id: receipt.payee_organization_id.clone(),
            bond_id: receipt.bond_id.clone(),
        };
        self.close_open(&key, receipt.start_block_num, receipt.end_block_num);
        self.records.push(ChainRecord::Receipt(receipt));
        proof {
            assert(self@.records =~= step_action(
                old(self)@.records,
                ActionV::Upsert(ChainRecordV::Receipt(receipt@)),
            ));
        }
        Ok(())
    }

    /// Looks up the recorded block with this number, if any.
    fn get_block_if_exists(&self, block_num: i64) -> (r: Result<Option<Block>, DatabaseError>)
        ensures
            match r {
                Ok(opt) => match (opt, find_block(self@.blocks, block_num as int)) {
                    (Some(b), Some(bv)) => b@ == bv,
                    (None, None) => true,
                    _ => false,
                },
                Err(_) => false,
            },
    {
        let mut i: usize = 0;
        while i < self.blocks.len()
            invariant
                i <= self.blocks.len(),
                forall|j: int|
                    0 <= j < i ==> (#[trigger] self@.blocks[j].block_num) != block_num as int,
            decreases self.blocks.len() - i,
        {
            let b = &self.blocks[i];
            proof {
                assert(b@ == self@.blocks[i as int]);
            }
            if b.block_num == block_num {
                proof {
                    lemma_find_block_skip(self@.blocks, block_num as int, i as int);
                    assert(self@.blocks.skip(i as int)[0] == self@.blocks[i as int]);
                }
                return Ok(Some(b.clone()));
            }
            i += 1;
        }
        proof {
            lemma_find_block_skip(self@.blocks, block_num as int, self@.blocks.len() as int);
            assert(self@.blocks.skip(self@.blocks.len() as int).len() == 0);
        }
        Ok(None)
    }

    /// A block recorded under the same number with a different identity
    /// marks a fork.
    fn is_fork(&self, block_in_db: &Block, block_to_be_inserted: &Block) -> (r: bool)
        ensures
            r == (block_in_db@.block_id != block_to_be_inserted@.block_id),
    {
        if block_in_db.block_id == block_to_be_inserted.block_id {
            return false;
        }
        true
    }

    /// Records the block row itself.
    fn insert_block(&mut self, block: &Block) -> (r: Result<(), DatabaseError>)
        ensures
            r is Ok,
            final(self)@.blocks == old(self)@.blocks.push(block@),
            final(self)@.records == old(self)@.records,
    {
        self.blocks.push(block.clone());
        proof {
            assert(self@.blocks =~= old(self)@.blocks.push(block@));
        }
        Ok(())
    }

    /// Discards the abandoned branch: deletes every versioned row created
    /// at or after `block_num`, reopens every row the branch had closed at
    /// or after it, and deletes the branch's block rows.
    fn drop_fork(&mut self, block_num: i64) -> (r: Result<(), DatabaseError>)
        ensures
            r is Ok,
            final(self)@.records == rollback_records(old(self)@.records, block_num as int),
            final(self)@.blocks == rollback_blocks(old(self)@.blocks, block_num as int),
    {
        let ghost rs0 = self@.records;
        let ghost bs0 = self@.blocks;
        let n = block_num;

        let mut kept: Vec<ChainRecord> = Vec::new();
        let mut i: usize = 0;
        while i < self.records.len()
            invariant
                i <= self.records.len(),
                self.records.deep_view() == rs0,
                self.blocks.deep_view() == bs0,
                n == block_num,
                kept.deep_view() == rollback_records(rs0.take(i as int), n as int),
            decreases self.records.len() - i,
        {
            let r = &self.records[i];
            proof {
                assert(r@ == rs0[i as int]);
            }
            let ghost pre = kept.deep_view();
            if record_start(r) >= n {
                // row created only on the abandoned branch: dropped
            } else if record_end(r) >= n {
                kept.push(with_end(r, MAX_BLOCK_NUM));
            } else {
                kept.push(r.clone());
            }
            i += 1;
            proof {
                assert(rs0.take(i as int).drop_last() =~= rs0.take(i as int - 1));
                assert(rollback_records(rs0.take(i as int), n as int) == pre + rollback_one(
                    rs0[i as int - 1],
                    n as int,
                ));
                if start_of(rs0[i as int - 1]) >= n as int {
                    assert(kept.deep_view() =~= pre + rollback_one(rs0[i as int - 1], n as int));
                } else if end_of(rs0[i as int - 1]) >= n as int {
                    assert(kept.deep_view() =~= pre + rollback_one(rs0[i as int - 1], n as int));
                } else {
                    assert(kept.deep_view() =~= pre + rollback_one(rs0[i as int - 1], n as int));
                }
            }
        }
        self.records = kept;
        proof {
            assert(rs0.take(rs0.len() as int) =~= rs0);
        }

        let mut kept_blocks: Vec<Block> = Vec::new();
        let mut i: usize = 0;
        while i < self.blocks.len()
            invariant
                i <= self.blocks.len(),
                self.blocks.deep_view() == bs0,
                self.records.deep_view() == rollback_records(rs0, block_num as int),
                n == block_num,
                kept_blocks.deep_view() == rollback_blocks(bs0.take(i as int), n as int),
            decreases self.blocks.len() - i,
        {
            let b = &self.blocks[i];
            proof {
                assert(b@ == bs0[i as int]);
            }
            let ghost pre = kept_blocks.deep_view();
            if b.block_num < n {
                kept_blocks.push(b.clone());
            }
            i += 1;
            proof {
                assert(bs0.take(i as int).drop_last() =~= bs0.take(i as int - 1));
                if bs0[i as int - 1].block_num >= n as int {
                    assert(kept_blocks.deep_view() == pre);
                } else {
                    assert(kept_blocks.deep_view() =~= pre.push(bs0[i as int - 1]));
                }
            }
        }
        self.blocks = kept_blocks;
        proof {
            assert(bs0.take(bs0.len() as int) =~= bs0);
        }
        Ok(())
    }

    /// Applies one typed operation: closes the versions it supersedes and
    /// inserts its stamped rows.
    fn execute_transaction(&mut self, transaction: OperationType) -> (r: Result<
        (),
        DatabaseError,
    >)
        ensures
            r is Ok,
            final(self)@.records == run_actions(
                old(self)@.records,
                op_actions(transaction.deep_view()),
            ),
            final(self)@.blocks == old(self)@.blocks,
    {
        let ghost rs0 = self@.records;
        match transaction {
            OperationType::InsertParticipants(participants) => {
                self.insert_participant(participants)
            },
            OperationType::InsertOrganizations(organizations) => {
                let ghost items0 = organizations.deep_view();
                let mut items = organizations;
                let ghost mut done: int = 0;
                while items.len() > 0
                    invariant
                        0 <= done,
                        done + items@.len() == items0.len(),
                        items.deep_view() == items0.skip(done),
                        self@.records == run_actions(rs0, organization_actions(items0.take(done))),
                        self@.blocks == old(self)@.blocks,
                    decreases items.len(),
                {
                    let ghost pre = items.deep_view();
                    let item = items.remove(0);
                    let (organization, authorizations) = item;
                    proof {
                        assert((organization@, authorizations.deep_view()) == pre[0]);
                        assert(pre[0] == items0[done]);
                        assert(items.deep_view() =~= pre.skip(1));
                    }
                    let ghost mid0 = self@.records;
                    let res = self.insert_organization(&organization);
                    if res.is_err() {
                        return res;
                    }
                    let res = self.insert_authorization(authorizations);
                    if res.is_err() {
                        return res;
                    }
                    proof {
                        done = done + 1;
                        assert(items.deep_view() =~= items0.skip(done));
                        let it = items0[done - 1];
                        let u = ActionV::Upsert(ChainRecordV::Organization(it.0));
                        // the two calls performed seq![u] + authorization_actions(it.1)
                        assert(seq![u].len() == 1);
                        assert(seq![u].drop_last() =~= Seq::<ActionV>::empty());
                        assert(run_actions(mid0, Seq::<ActionV>::empty()) == mid0);
                        assert(seq![u].last() == u);
                        assert(run_actions(mid0, seq![u]) == step_action(mid0, u));
                        lemma_run_actions_concat(mid0, seq![u], authorization_actions(it.1));
                        assert(self@.records == run_actions(
                            mid0,
                            organization_item_actions(it),
                        ));
                        // fold the item into the processed prefix
                        assert(items0.take(done).drop_last() =~= items0.take(done - 1));
                        assert(organization_actions(items0.take(done)) == organization_actions(
                            items0.take(done - 1),
                        ) + organization_item_actions(it));
                        lemma_run_actions_concat(
                            rs0,
                            organization_actions(items0.take(done - 1)),
                            organization_item_actions(it),
                        );
                    }
                }
                proof {
                    assert(items0.take(done) =~= items0);
                }
                Ok(())
            },
            OperationType::InsertBond(bond, ratings) => {
                let ghost u = ActionV::Upsert(ChainRecordV::Bond(bond@));
                let ghost racts = rating_actions(ratings.deep_view());
                let res = self.insert_bond(&bond);
                if res.is_err() {
                    return res;
                }
                let res = self.insert_corporate_debt_ratings(ratings);
                if res.is_err() {
                    return res;
                }
                proof {
                    assert(seq![u].drop_last() =~= Seq::<ActionV>::empty());
                    assert(run_actions(rs0, Seq::<ActionV>::empty()) == rs0);
                    assert(run_actions(rs0, seq![u]) == step_action(rs0, u));
                    lemma_run_actions_concat(rs0, seq![u], racts);
                }
                Ok(())
            },
            OperationType::InsertHolding(holding) => {
                let ghost u = ActionV::Upsert(ChainRecordV::Holding(holding@));
                let res = self.insert_holding(holding);
                proof {
                    assert(seq![u].drop_last() =~= Seq::<ActionV>::empty());
                    assert(run_actions(rs0, Seq::<ActionV>::empty()) == rs0);
                    assert(run_actions(rs0, seq![u]) == step_action(rs0, u));
                }
                res
            },
            OperationType::UpdateHolding(address, current_block_num, max_block_num) => {
                let ghost a = ActionV::CloseOnly(
                    holding_close_key(address@),
                    current_block_num as int,
                    max_block_num as int,
                );
                let res = self.update_holding(address.as_str(), current_block_num, max_block_num);
                proof {
                    assert(seq![a].drop_last() =~= Seq::<ActionV>::empty());
                    assert(run_actions(rs0, Seq::<ActionV>::empty()) == rs0);
                    assert(run_actions(rs0, seq![a]) == step_action(rs0, a));
                }
                res
            },
            OperationType::InsertOrder(order) => {
                let ghost u = ActionV::Upsert(ChainRecordV::Order(order@));
                let res = self.insert_order(order);
                proof {
                    assert(seq![u].drop_last() =~= Seq::<ActionV>::empty());
                    assert(run_actions(rs0, Seq::<ActionV>::empty()) == rs0);
                    assert(run_actions(rs0, seq![u]) == step_action(rs0, u));
                }
                res
            },
            OperationType::InsertQuote(quote) => {
                let ghost u = ActionV::Upsert(ChainRecordV::Quote(quote@));
                let res = self.insert_quote(quote);
                proof {
                    assert(seq![u].drop_last() =~= Seq::<ActionV>::empty());
                    assert(run_actions(rs0, Seq::<ActionV>::empty()) == rs0);
                    assert(run_actions(rs0, seq![u]) == step_action(rs0, u));
                }
                res
            },
            OperationType::InsertSettlement(settlement) => {
                let ghost u = ActionV::Upsert(ChainRecordV::Settlement(settlement@));
                let res = self.insert_settlement(settlement);
                proof {
                    assert(seq![u].drop_last() =~= Seq::<ActionV>::empty());
                    assert(run_actions(rs0, Seq::<ActionV>::empty()) == rs0);
                    assert(run_actions(rs0, seq![u]) == step_action(rs0, u));
                }
                res
            },
            OperationType::InsertReceipt(receipt) => {
                let ghost u = ActionV::Upsert(ChainRecordV::Receipt(receipt@));
                let res = self.insert_receipt(receipt);
                proof {
                    assert(seq![u].drop_last() =~= Seq::<ActionV>::empty());
                    assert(run_actions(rs0, Seq::<ActionV>::empty()) == rs0);
                    assert(run_actions(rs0, seq![u]) == step_action(rs0, u));
                }
                res
            },
        }
    }

    /// Admits one block and its operations as a single atomic unit,
    /// resolving duplicate and forked redeliveries: a duplicate is a
    /// recognized no-op, a fork first rolls the abandoned branch back,
    /// and a new block applies every operation in order before the block
    /// row is recorded. The whole effect is `apply_spec`.
    pub fn execute_transactions_in_block(
        &mut self,
        transactions: Vec<OperationType>,
        block: &Block,
    ) -> (r: Result<(), DatabaseError>)
        ensures
            r is Ok,
            final(self)@ == apply_spec(old(self)@, transactions.deep_view(), block@),
    {
        let ghost txs0 = transactions.deep_view();
        let existing = self.get_block_if_exists(block.block_num);
        match existing {
            Err(e) => {
                return Err(e);
            },
            Ok(Some(block_in_db)) => {
                if self.is_fork(&block_in_db, block) {
                    let res = self.drop_fork(block.block_num);
                    if res.is_err() {
                        return res;
                    }
                } else {
                    // duplicate redelivery: nothing to do
                    return Ok(());
                }
            },
            Ok(None) => {},
        }
        let ghost rs1 = self@.records;
        let ghost bs1 = self@.blocks;
        let mut txs = transactions;
        let ghost mut done: int = 0;
        while txs.len() > 0
            invariant
                0 <= done,
                done + txs@.len() == txs0.len(),
                txs.deep_view() == txs0.skip(done),
                self@.records == run_actions(rs1, ops_actions(txs0.take(done))),
                self@.blocks == bs1,
            decreases txs.len(),
        {
            let ghost pre = txs.deep_view();
            let t = txs.remove(0);
            proof {
                assert(t@ == pre[0]);
                assert(pre[0] == txs0[done]);
                assert(txs.deep_view() =~= pre.skip(1));
            }
            let ghost mid0 = self@.records;
            let res = self.execute_transaction(t);
            if res.is_err() {
                return res;
            }
            proof {
                done = done + 1;
                assert(txs.deep_view() =~= txs0.skip(done));
                assert(txs0.take(done).drop_last() =~= txs0.take(done - 1));
                assert(ops_actions(txs0.take(done)) == ops_actions(txs0.take(done - 1))
                    + op_actions(txs0[done - 1]));
                lemma_run_actions_concat(
                    rs1,
                    ops_actions(txs0.take(done - 1)),
                    op_actions(txs0[done - 1]),
                );
            }
        }
        proof {
            assert(txs0.take(done) =~= txs0);
        }
        self.insert_block(block)
    }

    /// All recorded blocks, in insertion order.
    pub fn get_blocks(&self) -> (r: Vec<Block>)
        ensures
            r.deep_view() == self@.blocks,
    {
        let mut out: Vec<Block> = Vec::new();
        let mut i: usize = 0;
        while i < self.blocks.len()
            invariant
                i <= self.blocks.len(),
                out.deep_view() =~= self@.blocks.take(i as int),
            decreases self.blocks.len() - i,
        {
            let ghost pre = out.deep_view();
            let b = &self.blocks[i];
            proof {
                assert(b@ == self@.blocks[i as int]);
            }
            out.push(b.clone());
            i += 1;
            proof {
                assert(out.deep_view() =~= pre.push(self@.blocks[i as int - 1]));
                assert(out.deep_view() =~= self@.blocks.take(i as int));
            }
        }
        proof {
            assert(self@.blocks.take(self@.blocks.len() as int) =~= self@.blocks);
        }
        out
    }

    /// All participant rows, in history order.
    pub fn get_participants(&self) -> (r: Vec<NewParticipant>)
        ensures
            r.deep_view() == participants_of(self@.records),
    {
        let mut out: Vec<NewParticipant> = Vec::new();
        let mut i: usize = 0;
        while i < self.records.len()
            invariant
                i <= self.records.len(),
                out.deep_view() == participants_of(self@.records.take(i as int)),
            decreases self.records.len() - i,
        {
            let ghost pre = out.deep_view();
            match &self.records[i] {
                ChainRecord::Participant(p) => {
                    out.push(p.clone());
                },
                _ => {},
            }
            i += 1;
            proof {
                let k = i as int;
                assert(self@.records.take(k).drop_last() =~= self@.records.take(k - 1));
                assert(self@.records.take(k).last() == self@.records[k - 1]);
                assert(self@.records[k - 1] == self.records@[k - 1]@);
                match self@.records[k - 1] {
                    ChainRecordV::Participant(pv) => {
                        assert(out.deep_view() =~= pre.push(pv));
                        assert(pre.push(pv) =~= pre + seq![pv]);
                    },
                    _ => {
                        assert(out.deep_view() =~= pre + Seq::<ParticipantV>::empty());
                    },
                }
            }
        }
        proof {
            assert(self@.records.take(self@.records.len() as int) =~= self@.records);
        }
        out
    }

    /// All organization rows, in history order.
    pub fn get_organizations(&self) -> (r: Vec<NewOrganization>)
        ensures
            r.deep_view() == organizations_of(self@.records),
    {
        let mut out: Vec<NewOrganization> = Vec::new();
        let mut i: usize = 0;
        while i < self.records.len()
            invariant
                i <= self.records.len(),
                out.deep_view() == organizations_of(self@.records.take(i as int)),
            decreases self.records.len() - i,
        {
            let ghost pre = out.deep_view();
            match &self.records[i] {
                ChainRecord::Organization(o) => {
                    out.push(o.clone());
                },
                _ => {},
            }
            i += 1;
            proof {
                let k = i as int;
                assert(self@.records.take(k).drop_last() =~= self@.records.take(k - 1));
                assert(self@.records.take(k).last() == self@.records[k - 1]);
                assert(self@.records[k - 1] == self.records@[k - 1]@);
                match self@.records[k - 1] {
                    ChainRecordV::Organization(ov) => {
                        assert(out.deep_view() =~= pre.push(ov));
                        assert(pre.push(ov) =~= pre + seq![ov]);
                    },
                    _ => {
                        assert(out.deep_view() =~= pre + Seq::<OrganizationV>::empty());
                    },
                }
            }
        }
        proof {
            assert(self@.records.take(self@.records.len() as int) =~= self@.records);
        }
        out
    }

    /// All authorization rows, in history order.
    pub fn get_authorizations(&self) -> (r: Vec<NewAuthorization>)
        ensures
            r.deep_view() == authorizations_of(self@.records),
    {
        let mut out: Vec<NewAuthorization> = Vec::new();
        let mut i: usize = 0;
        while i < self.records.len()
            invariant
                i <= self.records.len(),
                out.deep_view() == authorizations_of(self@.records.take(i as int)),
            decreases self.records.len() - i,
        {
            let ghost pre = out.deep_view();
            match &self.records[i] {
                ChainRecord::Authorization(a) => {
                    out.push(a.clone());
                },
                _ => {},
            }
            i += 1;
            proof {
                let k = i as int;
                assert(self@.records.take(k).drop_last() =~= self@.records.take(k - 1));
                assert(self@.records.take(k).last() == self@.records[k - 1]);
                assert(self@.records[k - 1] == self.records@[k - 1]@);
                match self@.records[k - 1] {
                    ChainRecordV::Authorization(av) => {
                        assert(out.deep_view() =~= pre.push(av));
                        assert(pre.push(av) =~= pre + seq![av]);
                    },
                    _ => {
                        assert(out.deep_view() =~= pre + Seq::<AuthorizationV>::empty());
                    },
                }
            }
        }
        proof {
            assert(self@.records.take(self@.records.len() as int) =~= self@.records);
        }
        out
    }

    /// All holding rows, in history order.
    pub fn get_holdings(&self) -> (r: Vec<NewHolding>)
        ensures
            r.deep_view() == holdings_of(self@.records),
    {
        let mut out: Vec<NewHolding> = Vec::new();
        let mut i: usize = 0;
        while i < self.records.len()
            invariant
                i <= self.records.len(),
                out.deep_view() == holdings_of(self@.records.take(i as int)),
            decreases self.records.len() - i,
        {
            let ghost pre = out.deep_view();
            match &self.records[i] {
                ChainRecord::Holding(h) => {
                    out.push(h.clone());
                },
                _ => {},
            }
            i += 1;
            proof {
                let k = i as int;
                assert(self@.records.take(k).drop_last() =~= self@.records.take(k - 1));
                assert(self@.records.take(k).last() == self@.records[k - 1]);
                assert(self@.records[k - 1] == self.records@[k - 1]@);
                match self@.records[k - 1] {
                    ChainRecordV::Holding(hv) => {
                        assert(out.deep_view() =~= pre.push(hv));
                        assert(pre.push(hv) =~= pre + seq![hv]);
                    },
                    _ => {
                        assert(out.deep_view() =~= pre + Seq::<HoldingV>::empty());
                    },
                }
            }
        }
        proof {
            assert(self@.records.take(self@.records.len() as int) =~= self@.records);
        }
        out
    }

}

proof fn lemma_find_block_skip(bs: Seq<BlockV>, n: int, i: int)
    requires
        0 <= i <= bs.len(),
        forall|j: int| 0 <= j < i ==> (#[trigger] bs[j].block_num) != n,
    ensures
        find_block(bs, n) == find_block(bs.skip(i), n),
    decreases i,
{
    if i == 0 {
        assert(bs.skip(0) =~= bs);
    } else {
        assert(bs[0].block_num != n);
        assert forall|j: int| 0 <= j < i - 1 implies (#[trigger] bs.skip(1)[j].block_num) != n by {
            assert(bs.skip(1)[j] == bs[j + 1]);
        }
        lemma_find_block_skip(bs.skip(1), n, i - 1);
        assert(bs.skip(1).skip(i - 1) =~= bs.skip(i));
    }
}

} // verus!
