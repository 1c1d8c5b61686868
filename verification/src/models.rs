//! Versioned row types of the relational history.
//!
//! Each row carries its natural-key and payload fields together with a
//! validity window `[start_block_num, end_block_num)` of block numbers
//! during which the row was the current version of its entity.
//! `end_block_num == MAX_BLOCK_NUM` marks the open (currently valid)
//! version. Every type has a mathematical view with `Seq<char>` in place
//! of `String` and `int` in place of `i64`.

use vstd::prelude::*;

verus! {

/// Sentinel for "valid indefinitely": the largest representable block
/// number.
pub const MAX_BLOCK_NUM: i64 = i64::MAX;

#[derive(Clone, Copy, Debug, PartialEq, Eq, Structural)]
pub enum OrganizationTypeEnum {
    TRADINGFIRM,
    PRICINGSOURCE,
}

#[derive(Clone, Copy, Debug, PartialEq, Eq, Structural)]
pub enum RoleEnum {
    MARKETMAKER,
    TRADER,
}

#[derive(Clone, Copy, Debug, PartialEq, Eq, Structural)]
pub enum AssetTypeEnum {
    CURRENCY,
    BOND,
}

#[derive(Clone, Copy, Debug, PartialEq, Eq, Structural)]
pub enum OrderActionEnum {
    BUY,
    SELL,
}

#[derive(Clone, Copy, Debug, PartialEq, Eq, Structural)]
pub enum OrderStatusEnum {
    OPEN,
    MATCHED,
    SETTLED,
}

#[derive(Clone, Copy, Debug, PartialEq, Eq, Structural)]
pub enum OrderTypeEnum {
    MARKET,
    LIMIT,
}

#[derive(Clone, Copy, Debug, PartialEq, Eq, Structural)]
pub enum CouponTypeEnum {
    FIXED,
    FLOATING,
}

#[derive(Clone, Copy, Debug, PartialEq, Eq, Structural)]
pub enum CouponFrequencyEnum {
    QUARTERLY,
    MONTHLY,
    DAILY,
}

#[derive(Clone, Copy, Debug, PartialEq, Eq, Structural)]
pub enum PaymentTypeEnum {
    COUPON,
    REDEMPTION,
}

#[derive(Clone, Copy, Debug, PartialEq, Eq, Structural)]
pub enum QuoteStatusEnum {
    OPEN,
    CLOSED,
}

/// A committed ledger block: exactly one row may exist per block number.
pub struct Block {
    pub block_num: i64,
    pub block_id: String,
}

pub struct BlockV {
    pub block_num: int,
    pub block_id: Seq<char>,
}

impl View for Block {
    type V = BlockV;

    open spec fn view(&self) -> BlockV {
        BlockV { block_num: self.block_num as int, block_id: self.block_id@ }
    }
}

impl DeepView for Block {
    type V = BlockV;

    open spec fn deep_view(&self) -> BlockV {
        self.view()
    }
}

impl Clone for Block {
    fn clone(&self) -> (r: Self)
        ensures
            r@ == self@,
    {
        Block { block_num: self.block_num, block_id: self.block_id.clone() }
    }
}

pub struct NewOrganization {
    pub organization_id: String,
    pub industry: String,
    pub name: String,
    pub organization_type: OrganizationTypeEnum,
    pub start_block_num: i64,
    pub end_block_num: i64,
}

pub struct OrganizationV {
    pub organization_id: Seq<char>,
    pub industry: Seq<char>,
    pub name: Seq<char>,
    pub organization_type: OrganizationTypeEnum,
    pub start_block_num: int,
    pub end_block_num: int,
}

impl View for NewOrganization {
    type V = OrganizationV;

    open spec fn view(&self) -> OrganizationV {
        OrganizationV {
            organization_id: self.organization_id@,
            industry: self.industry@,
            name: self.name@,
            organization_type: self.organization_type,
            start_block_num: self.start_block_num as int,
            end_block_num: self.end_block_num as int,
        }
    }
}

impl DeepView for NewOrganization {
    type V = OrganizationV;

    open spec fn deep_view(&self) -> OrganizationV {
        self.view()
    }
}

impl Clone for NewOrganization {
    fn clone(&self) -> (r: Self)
        ensures
            r@ == self@,
    {
        NewOrganization {
            organization_id: self.organization_id.clone(),
            industry: self.industry.clone(),
            name: self.name.clone(),
            organization_type: self.organization_type,
            start_block_num: self.start_block_num,
            end_block_num: self.end_block_num,
        }
    }
}

pub struct NewAuthorization {
    pub organization_id: String,
    pub participant_public_key: String,
    pub role: RoleEnum,
    pub start_block_num: i64,
    pub end_block_num: i64,
}

pub struct AuthorizationV {
    pub organization_id: Seq<char>,
    pub participant_public_key: Seq<char>,
    pub role: RoleEnum,
    pub start_block_num: int,
    pub end_block_num: int,
}

impl View for NewAuthorization {
    type V = AuthorizationV;

    open spec fn view(&self) -> AuthorizationV {
        AuthorizationV {
            organization_id: self.organization_id@,
            participant_public_key: self.participant_public_key@,
            role: self.role,
            start_block_num: self.start_block_num as int,
            end_block_num: self.end_block_num as int,
        }
    }
}

impl DeepView for NewAuthorization {
    type V = AuthorizationV;

    open spec fn deep_view(&self) -> AuthorizationV {
        self.view()
    }
}

impl Clone for NewAuthorization {
    fn clone(&self) -> (r: Self)
        ensures
            r@ == self@,
    {
        NewAuthorization {
            organization_id: self.organization_id.clone(),
            participant_public_key: self.participant_public_key.clone(),
            role: self.role,
            start_block_num: self.start_block_num,
            end_block_num: self.end_block_num,
        }
    }
}

pub struct NewParticipant {
    pub public_key: String,
    pub organization_id: String,
    pub username: String,
    pub start_block_num: i64,
    pub end_block_num: i64,
}

pub struct ParticipantV {
    pub public_key: Seq<char>,
    pub organization_id: Seq<char>,
    pub username: Seq<char>,
    pub start_block_num: int,
    pub end_block_num: int,
}

impl View for NewParticipant {
    type V = ParticipantV;

    open spec fn view(&self) -> ParticipantV {
        ParticipantV {
            public_key: self.public_key@,
            organization_id: self.organization_id@,
            username: self.username@,
            start_block_num: self.start_block_num as int,
            end_block_num: self.end_block_num as int,
        }
    }
}

impl DeepView for NewParticipant {
    type V = ParticipantV;

    open spec fn deep_view(&self) -> ParticipantV {
        self.view()
    }
}

impl Clone for NewParticipant {
    fn clone(&self) -> (r: Self)
        ensures
            r@ == self@,
    {
        NewParticipant {
            public_key: self.public_key.clone(),
            organization_id: self.organization_id.clone(),
            username: self.username.clone(),
            start_block_num: self.start_block_num,
            end_block_num: self.end_block_num,
        }
    }
}

pub struct NewBond {
    pub bond_id: String,
    pub issuing_organization_id: String,
    pub amount_outstanding: i64,
    pub coupon_rate: i64,
    pub first_coupon_date: i64,
    pub first_settlement_date: i64,
    pub maturity_date: i64,
    pub face_value: i64,
    pub coupon_type: CouponTypeEnum,
    pub coupon_frequency: CouponFrequencyEnum,
    pub start_block_num: i64,
    pub end_block_num: i64,
}

pub struct BondV {
    pub bond_id: Seq<char>,
    pub issuing_organization_id: Seq<char>,
    pub amount_outstanding: int,
    pub coupon_rate: int,
    pub first_coupon_date: int,
    pub first_settlement_date: int,
    pub maturity_date: int,
    pub face_value: int,
    pub coupon_type: CouponTypeEnum,
    pub coupon_frequency: CouponFrequencyEnum,
    pub start_block_num: int,
    pub end_block_num: int,
}

impl View for NewBond {
    type V = BondV;

    open spec fn view(&self) -> BondV {
        BondV {
            bond_id: self.bond_id@,
            issuing_organization_id: self.issuing_organization_id@,
            amount_outstanding: self.amount_outstanding as int,
            coupon_rate: self.coupon_rate as int,
            first_coupon_date: self.first_coupon_date as int,
            first_settlement_date: self.first_settlement_date as int,
            maturity_date: self.maturity_date as int,
            face_value: self.face_value as int,
            coupon_type: self.coupon_type,
            coupon_frequency: self.coupon_frequency,
            start_block_num: self.start_block_num as int,
            end_block_num: self.end_block_num as int,
        }
    }
}

impl DeepView for NewBond {
    type V = BondV;

    open spec fn deep_view(&self) -> BondV {
        self.view()
    }
}

impl Clone for NewBond {
    fn clone(&self) -> (r: Self)
        ensures
            r@ == self@,
    {
        NewBond {
            bond_id: self.bond_id.clone(),
            issuing_organization_id: self.issuing_organization_id.clone(),
            amount_outstanding: self.amount_outstanding,
            coupon_rate: self.coupon_rate,
            first_coupon_date: self.first_coupon_date,
            first_settlement_date: self.first_settlement_date,
            maturity_date: self.maturity_date,
            face_value: self.face_value,
            coupon_type: self.coupon_type,
            coupon_frequency: self.coupon_frequency,
            start_block_num: self.start_block_num,
            end_block_num: self.end_block_num,
        }
    }
}

pub struct NewCorporateDebtRating {
    pub bond_id: String,
    pub agency: String,
    pub rating: String,
    pub start_block_num: i64,
    pub end_block_num: i64,
}

pub struct CorporateDebtRatingV {
    pub bond_id: Seq<char>,
    pub agency: Seq<char>,
    pub rating: Seq<char>,
    pub start_block_num: int,
    pub end_block_num: int,
}

impl View for NewCorporateDebtRating {
    type V = CorporateDebtRatingV;

    open spec fn view(&self) -> CorporateDebtRatingV {
        CorporateDebtRatingV {
            bond_id: self.bond_id@,
            agency: self.agency@,
            rating: self.rating@,
            start_block_num: self.start_block_num as int,
            end_block_num: self.end_block_num as int,
        }
    }
}

impl DeepView for NewCorporateDebtRating {
    type V = CorporateDebtRatingV;

    open spec fn deep_view(&self) -> CorporateDebtRatingV {
        self.view()
    }
}

impl Clone for NewCorporateDebtRating {
    fn clone(&self) -> (r: Self)
        ensures
            r@ == self@,
    {
        NewCorporateDebtRating {
            bond_id: self.bond_id.clone(),
            agency: self.agency.clone(),
            rating: self.rating.clone(),
            start_block_num: self.start_block_num,
            end_block_num: self.end_block_num,
        }
    }
}

pub struct NewHolding {
    pub owner_organization_id: String,
    pub asset_id: String,
    pub asset_type: AssetTypeEnum,
    pub amount: i64,
    pub address: String,
    pub start_block_num: i64,
    pub end_block_num: i64,
}

pub struct HoldingV {
    pub owner_organization_id: Seq<char>,
    pub asset_id: Seq<char>,
    pub asset_type: AssetTypeEnum,
    pub amount: int,
    pub address: Seq<char>,
    pub start_block_num: int,
    pub end_block_num: int,
}

impl View for NewHolding {
    type V = HoldingV;

    open spec fn view(&self) -> HoldingV {
        HoldingV {
            owner_organization_id: self.owner_organization_id@,
            asset_id: self.asset_id@,
            asset_type: self.asset_type,
            amount: self.amount as int,
            address: self.address@,
            start_block_num: self.start_block_num as int,
            end_block_num: self.end_block_num as int,
        }
    }
}

impl DeepView for NewHolding {
    type V = HoldingV;

    open spec fn deep_view(&self) -> HoldingV {
        self.view()
    }
}

impl Clone for NewHolding {
    fn clone(&self) -> (r: Self)
        ensures
            r@ == self@,
    {
        NewHolding {
            owner_organization_id: self.owner_organization_id.clone(),
            asset_id: self.asset_id.clone(),
            asset_type: self.asset_type,
            amount: self.amount,
            address: self.address.clone(),
            start_block_num: self.start_block_num,
            end_block_num: self.end_block_num,
        }
    }
}

pub struct NewOrder {
    pub bond_id: String,
    pub ordering_organization_id: String,
    pub order_id: String,
    pub limit_price: i64,
    pub limit_yield: i64,
    pub quantity: i64,
    pub quote_id: String,
    pub status: OrderStatusEnum,
    pub action: OrderActionEnum,
    pub order_type: OrderTypeEnum,
    pub timestamp: i64,
    pub start_block_num: i64,
    pub end_block_num: i64,
}

pub struct OrderV {
    pub bond_id: Seq<char>,
    pub ordering_organization_id: Seq<char>,
    pub order_id: Seq<char>,
    pub limit_price: int,
    pub limit_yield: int,
    pub quantity: int,
    pub quote_id: Seq<char>,
    pub status: OrderStatusEnum,
    pub action: OrderActionEnum,
    pub order_type: OrderTypeEnum,
    pub timestamp: int,
    pub start_block_num: int,
    pub end_block_num: int,
}

impl View for NewOrder {
    type V = OrderV;

    open spec fn view(&self) -> OrderV {
        OrderV {
            bond_id: self.bond_id@,
            ordering_organization_id: self.ordering_organization_id@,
            order_id: self.order_id@,
            limit_price: self.limit_price as int,
            limit_yield: self.limit_yield as int,
            quantity: self.quantity as int,
            quote_id: self.quote_id@,
            status: self.status,
            action: self.action,
            order_type: self.order_type,
            timestamp: self.timestamp as int,
            start_block_num: self.start_block_num as int,
            end_block_num: self.end_block_num as int,
        }
    }
}

impl DeepView for NewOrder {
    type V = OrderV;

    open spec fn deep_view(&self) -> OrderV {
        self.view()
    }
}

impl Clone for NewOrder {
    fn clone(&self) -> (r: Self)
        ensures
            r@ == self@,
    {
        NewOrder {
            bond_id: self.bond_id.clone(),
            ordering_organization_id: self.ordering_organization_id.clone(),
            order_id: self.order_id.clone(),
            limit_price: self.limit_price,
            limit_yield: self.limit_yield,
            quantity: self.quantity,
            quote_id: self.quote_id.clone(),
            status: self.status,
            action: self.action,
            order_type: self.order_type,
            timestamp: self.timestamp,
            start_block_num: self.start_block_num,
            end_block_num: self.end_block_num,
        }
    }
}

pub struct NewQuote {
    pub bond_id: String,
    pub organization_id: String,
    pub ask_price: i64,
    pub ask_qty: i64,
    pub bid_price: i64,
    pub bid_qty: i64,
    pub status: QuoteStatusEnum,
    pub timestamp: i64,
    pub start_block_num: i64,
    pub end_block_num: i64,
}

pub struct QuoteV {
    pub bond_id: Seq<char>,
    pub organization_id: Seq<char>,
    pub ask_price: int,
    pub ask_qty: int,
    pub bid_price: int,
    pub bid_qty: int,
    pub status: QuoteStatusEnum,
    pub timestamp: int,
    pub start_block_num: int,
    pub end_block_num: int,
}

impl View for NewQuote {
    type V = QuoteV;

    open spec fn view(&self) -> QuoteV {
        QuoteV {
            bond_id: self.bond_id@,
            organization_id: self.organization_id@,
            ask_price: self.ask_price as int,
            ask_qty: self.ask_qty as int,
            bid_price: self.bid_price as int,
            bid_qty: self.bid_qty as int,
            status: self.status,
            timestamp: self.timestamp as int,
            start_block_num: self.start_block_num as int,
            end_block_num: self.end_block_num as int,
        }
    }
}

impl DeepView for NewQuote {
    type V = QuoteV;

    open spec fn deep_view(&self) -> QuoteV {
        self.view()
    }
}

impl Clone for NewQuote {
    fn clone(&self) -> (r: Self)
        ensures
            r@ == self@,
    {
        NewQuote {
            bond_id: self.bond_id.clone(),
            organization_id: self.organization_id.clone(),
            ask_price: self.ask_price,
            ask_qty: self.ask_qty,
            bid_price: self.bid_price,
            bid_qty: self.bid_qty,
            status: self.status,
            timestamp: self.timestamp,
            start_block_num: self.start_block_num,
            end_block_num: self.end_block_num,
        }
    }
}

pub struct NewSettlement {
    pub order_id: String,
    pub ordering_organization_id: String,
    pub quoting_organization_id: String,
    pub action: OrderActionEnum,
    pub bond_quantity: i64,
    pub currency_amount: i64,
    pub start_block_num: i64,
    pub end_block_num: i64,
}

pub struct SettlementV {
    pub order_id: Seq<char>,
    pub ordering_organization_id: Seq<char>,
    pub quoting_organization_id: Seq<char>,
    pub action: OrderActionEnum,
    pub bond_quantity: int,
    pub currency_amount: int,
    pub start_block_num: int,
    pub end_block_num: int,
}

impl View for NewSettlement {
    type V = SettlementV;

    open spec fn view(&self) -> SettlementV {
        SettlementV {
            order_id: self.order_id@,
            ordering_organization_id: self.ordering_organization_id@,
            quoting_organization_id: self.quoting_organization_id@,
            action: self.action,
            bond_quantity: self.bond_quantity as int,
            currency_amount: self.currency_amount as int,
            start_block_num: self.start_block_num as int,
            end_block_num: self.end_block_num as int,
        }
    }
}

impl DeepView for NewSettlement {
    type V = SettlementV;

    open spec fn deep_view(&self) -> SettlementV {
        self.view()
    }
}

impl Clone for NewSettlement {
    fn clone(&self) -> (r: Self)
        ensures
            r@ == self@,
    {
        NewSettlement {
            order_id: self.order_id.clone(),
            ordering_organization_id: self.ordering_organization_id.clone(),
            quoting_organization_id: self.quoting_organization_id.clone(),
            action: self.action,
            bond_quantity: self.bond_quantity,
            currency_amount: self.currency_amount,
            start_block_num: self.start_block_num,
            end_block_num: self.end_block_num,
        }
    }
}

pub struct NewReceipt {
    pub payee_organization_id: String,
    pub bond_id: String,
    pub payment_type: PaymentTypeEnum,
    pub coupon_date: i64,
    pub amount: i64,
    pub timestamp: i64,
    pub start_block_num: i64,
    pub end_block_num: i64,
}

pub struct ReceiptV {
    pub payee_organization_id: Seq<char>,
    pub bond_id: Seq<char>,
    pub payment_type: PaymentTypeEnum,
    pub coupon_date: int,
    pub amount: int,
    pub timestamp: int,
    pub start_block_num: int,
    pub end_block_num: int,
}

impl View for NewReceipt {
    type V = ReceiptV;

    open spec fn view(&self) -> ReceiptV {
        ReceiptV {
            payee_organization_id: self.payee_organization_id@,
            bond_id: self.bond_id@,
            payment_type: self.payment_type,
            coupon_date: self.coupon_date as int,
            amount: self.amount as int,
            timestamp: self.timestamp as int,
            start_block_num: self.start_block_num as int,
            end_block_num: self.end_block_num as int,
        }
    }
}

impl DeepView for NewReceipt {
    type V = ReceiptV;

    open spec fn deep_view(&self) -> ReceiptV {
        self.view()
    }
}

impl Clone for NewReceipt {
    fn clone(&self) -> (r: Self)
        ensures
            r@ == self@,
    {
        NewReceipt {
            payee_organization_id: self.payee_organization_id.clone(),
            bond_id: self.bond_id.clone(),
            payment_type: self.payment_type,
            coupon_date: self.coupon_date,
            amount: self.amount,
            timestamp: self.timestamp,
            start_block_num: self.start_block_num,
            end_block_num: self.end_block_num,
        }
    }
}

} // verus!
