//! Decoders for the structured value encoding of state mutations.
//!
//! A mutation's value bytes carry one domain record in a fixed field
//! order. A string field is a 16-bit little-endian length followed by
//! that many ASCII bytes; an integer field is its decimal digits (with
//! an optional leading minus) as a string field; an enumeration field is
//! one tag byte; a repeated field is a 16-bit little-endian count
//! followed by the elements. Every decoder's result is pinned to a
//! functional parse of the byte sequence, and a decoder succeeds exactly
//! when the whole input is one well-formed record.

use vstd::prelude::*;

use crate::models::{
    AssetTypeEnum, CouponFrequencyEnum, CouponTypeEnum, OrderActionEnum, OrderStatusEnum,
    OrderTypeEnum, OrganizationTypeEnum, PaymentTypeEnum, QuoteStatusEnum, RoleEnum,
};

verus! {

/// A value that does not fit the expected structure.
#[derive(Clone, Copy, Debug, PartialEq, Eq, Structural)]
pub struct DecodeError;

/// Relies on String::push: appends one character to the string.
#[verifier::external_body]
fn string_push_char(s: &mut String, c: char)
    ensures
        final(s)@ == old(s)@.push(c),
{
    s.push(c);
}

pub open spec fn parse_u16(b: Seq<u8>, p: int) -> Option<(int, int)> {
    if 0 <= p && p + 2 <= b.len() {
        Some(((b[p] as int) + 256 * (b[p + 1] as int), p + 2))
    } else {
        None
    }
}

fn read_u16(b: &Vec<u8>, pos: &mut usize) -> (r: Option<u16>)
    ensures
        match parse_u16(b@, *old(pos) as int) {
            Some((v, p2)) => r == Some(v as u16) && v == r.unwrap() as int && *final(pos) as int
                == p2,
            None => r is None && *final(pos) == *old(pos),
        },
{
    if *pos < b.len() && b.len() - *pos >= 2 {
        let lo = b[*pos];
        let hi = b[*pos + 1];
        *pos = *pos + 2;
        Some((lo as u16) + 256 * (hi as u16))
    } else {
        None
    }
}

pub open spec fn is_ascii_byte(x: u8) -> bool {
    x < 128
}

/// The characters of an ASCII byte run.
pub open spec fn chars_of(b: Seq<u8>, p: int, n: int) -> Seq<char> {
    Seq::new(n as nat, |i: int| b[p + i] as char)
}

pub open spec fn parse_string(b: Seq<u8>, p: int) -> Option<(Seq<char>, int)> {
    match parse_u16(b, p) {
        None => None,
        Some((n, p1)) => {
            if p1 + n <= b.len() && (forall|i: int|
                0 <= i < n ==> is_ascii_byte(#[trigger] b[p1 + i])) {
                Some((chars_of(b, p1, n), p1 + n))
            } else {
                None
            }
        },
    }
}

#[verifier::loop_isolation(false)]
fn read_string(b: &Vec<u8>, pos: &mut usize) -> (r: Option<String>)
    ensures
        match parse_string(b@, *old(pos) as int) {
            Some((s, p2)) => r is Some && r.unwrap()@ == s && *final(pos) as int == p2,
            None => r is None && *final(pos) == *old(pos),
        },
{
    let start = *pos;
    match read_u16(b, pos) {
        None => None,
        Some(n) => {
            let n = n as usize;
            if b.len() - *pos < n {
                *pos = start;
                return None;
            }
            let base = *pos;
            let mut s = String::new();
            proof {
                assert(s@ =~= chars_of(b@, base as int, 0));
            }
            let mut i: usize = 0;
            while i < n
                invariant
                    base + n <= usize::MAX,
                    base + n <= b@.len(),
                    i <= n,
                    forall|j: int| 0 <= j < i ==> is_ascii_byte(#[trigger] b@[base + j]),
                    s@ == chars_of(b@, base as int, i as int),
                decreases n - i,
            {
                let x = b[base + i];
                if x >= 128 {
                    proof {
                        if parse_string(b@, start as int) is Some {
                            assert(is_ascii_byte(b@[start as int + 2 + i as int]));
                            assert(false);
                        }
                    }
                    *pos = start;
                    return None;
                }
                string_push_char(&mut s, x as char);
                i += 1;
                proof {
                    assert(s@ =~= chars_of(b@, base as int, i as int));
                }
            }
            *pos = base + n;
            proof {
                assert(s@ =~= chars_of(b@, base as int, n as int));
            }
            Some(s)
        },
    }
}

pub open spec fn is_digit(c: char) -> bool {
    '0' <= c && c <= '9'
}

pub open spec fn all_digits(s: Seq<char>) -> bool {
    forall|i: int| 0 <= i < s.len() ==> is_digit(#[trigger] s[i])
}

/// Value of a digit string.
pub open spec fn digits_val(s: Seq<char>) -> int
    decreases s.len(),
{
    if s.len() == 0 {
        0
    } else {
        digits_val(s.drop_last()) * 10 + (s.last() as int - '0' as int)
    }
}

/// The decimal reading of a character sequence as a 64-bit integer: an
/// optional leading minus, then at least one digit, and the value must be
/// representable.
pub open spec fn dec_i64(s: Seq<char>) -> Option<i64> {
    if s.len() > 0 && s[0] == '-' {
        let d = s.skip(1);
        if d.len() > 0 && all_digits(d) && digits_val(d) <= 0x8000_0000_0000_0000 {
            Some((-digits_val(d)) as i64)
        } else {
            None
        }
    } else if s.len() > 0 && all_digits(s) && digits_val(s) <= 0x7fff_ffff_ffff_ffff {
        Some(digits_val(s) as i64)
    } else {
        None
    }
}

proof fn lemma_digits_val_nonneg(s: Seq<char>)
    requires
        all_digits(s),
    ensures
        digits_val(s) >= 0,
    decreases s.len(),
{
    if s.len() > 0 {
        assert forall|i: int| 0 <= i < s.drop_last().len() implies is_digit(
            #[trigger] s.drop_last()[i],
        ) by {
            assert(s.drop_last()[i] == s[i]);
        }
        lemma_digits_val_nonneg(s.drop_last());
    }
}

/// Extending a digit string never decreases its value.
proof fn lemma_digits_val_monotone(s: Seq<char>, i: int, j: int)
    requires
        all_digits(s),
        0 <= i <= j <= s.len(),
    ensures
        digits_val(s.take(i)) <= digits_val(s.take(j)),
    decreases j - i,
{
    if i < j {
        let t = s.take(i + 1);
        assert(t.drop_last() =~= s.take(i));
        assert(t.last() == s[i]);
        assert forall|w: int| 0 <= w < s.take(i).len() implies is_digit(
            #[trigger] s.take(i)[w],
        ) by {
            assert(s.take(i)[w] == s[w]);
        }
        lemma_digits_val_nonneg(s.take(i));
        assert(digits_val(t) == digits_val(s.take(i)) * 10 + (s[i] as int - '0' as int));
        assert(digits_val(s.take(i)) * 10 >= digits_val(s.take(i)));
        lemma_digits_val_monotone(s, i + 1, j);
    }
}

/// Parses the decimal reading of a string, exactly as `dec_i64` does.
#[verifier::loop_isolation(false)]
pub fn parse_i64_dec(s: &str) -> (r: Option<i64>)
    ensures
        r == dec_i64(s@),
{
    let len = s.unicode_len();
    if len == 0 {
        return None;
    }
    let negative = s.get_char(0) == '-';
    let first: usize = if negative {
        1
    } else {
        0
    };
    if len - first == 0 {
        return None;
    }
    let ghost digits = s@.skip(first as int);
    proof {
        if first == 0 {
            assert(digits =~= s@);
        }
    }
    let mut acc: u64 = 0;
    let mut i: usize = first;
    while i < len
        invariant
            first <= i <= len,
            len == s@.len(),
            first == 0 || first == 1,
            digits == s@.skip(first as int),
            all_digits(digits.take(i - first as int)),
            acc as int == digits_val(digits.take(i - first as int)),
            acc <= 0x8000_0000_0000_0000,
        decreases len - i,
    {
        let c = s.get_char(i);
        let code = c as u32;
        if code < 48 || code > 57 {
            proof {
                assert(digits[i - first as int] == s@[i as int]);
                if dec_i64(s@) is Some {
                    if negative {
                        assert(digits == s@.skip(1));
                        assert(all_digits(digits));
                    } else {
                        assert(all_digits(digits));
                    }
                    assert(is_digit(digits[i - first as int]));
                    assert(false);
                }
            }
            return None;
        }
        let d = (code - 48) as u64;
        proof {
            let t = digits.take(i + 1 - first as int);
            assert(t.drop_last() =~= digits.take(i - first as int));
            assert(t.last() == digits[i - first as int]);
            assert(digits[i - first as int] == s@[i as int]);
        }
        if acc > 922_337_203_685_477_580 || (acc == 922_337_203_685_477_580 && d > 8) {
            // any continuation is out of the representable range
            proof {
                let k = i + 1 - first as int;
                assert(digits_val(digits.take(k)) == acc as int * 10 + d);
                assert(digits_val(digits.take(k)) > 0x8000_0000_0000_0000);
                if dec_i64(s@) is Some {
                    if negative {
                        assert(digits == s@.skip(1));
                    }
                    assert(all_digits(digits));
                    lemma_digits_val_monotone(digits, k, digits.len() as int);
                    assert(digits.take(digits.len() as int) =~= digits);
                    assert(digits_val(digits) > 0x8000_0000_0000_0000);
                    assert(false);
                }
            }
            return None;
        }
        acc = acc * 10 + d;
        i += 1;
    }
    proof {
        assert(digits.take(i - first as int) =~= digits);
    }
    if negative {
        if acc == 0x8000_0000_0000_0000 {
            Some(i64::MIN)
        } else {
            Some(-((acc) as i64))
        }
    } else {
        if acc > 0x7fff_ffff_ffff_ffff {
            proof {
                assert(digits_val(digits) > 0x7fff_ffff_ffff_ffff);
            }
            None
        } else {
            Some(acc as i64)
        }
    }
}

/// An integer field: a string field holding a decimal reading.
pub open spec fn parse_i64_field(b: Seq<u8>, p: int) -> Option<(i64, int)> {
    match parse_string(b, p) {
        None => None,
        Some((s, p1)) => match dec_i64(s) {
            None => None,
            Some(v) => Some((v, p1)),
        },
    }
}

fn read_i64_field(b: &Vec<u8>, pos: &mut usize) -> (r: Option<i64>)
    ensures
        match parse_i64_field(b@, *old(pos) as int) {
            Some((v, p2)) => r == Some(v) && *final(pos) as int == p2,
            None => r is None,
        },
{
    match read_string(b, pos) {
        None => None,
        Some(s) => match parse_i64_dec(s.as_str()) {
            None => None,
            Some(v) => Some(v),
        },
    }
}

pub open spec fn parse_u8(b: Seq<u8>, p: int) -> Option<(u8, int)> {
    if 0 <= p && p + 1 <= b.len() {
        Some((b[p], p + 1))
    } else {
        None
    }
}

fn read_u8(b: &Vec<u8>, pos: &mut usize) -> (r: Option<u8>)
    ensures
        match parse_u8(b@, *old(pos) as int) {
            Some((v, p2)) => r == Some(v) && *final(pos) as int == p2,
            None => r is None && *final(pos) == *old(pos),
        },
{
    if *pos < b.len() {
        let v = b[*pos];
        *pos = *pos + 1;
        Some(v)
    } else {
        None
    }
}

pub open spec fn parse_role(b: Seq<u8>, p: int) -> Option<(RoleEnum, int)> {
    match parse_u8(b, p) {
        None => None,
        Some((t, p1)) => {
            if t == 0 { Some((RoleEnum::MARKETMAKER, p1)) } else if t == 1 { Some((RoleEnum::TRADER, p1)) } else { None }
        },
    }
}

fn read_role(b: &Vec<u8>, pos: &mut usize) -> (r: Option<RoleEnum>)
    ensures
        match parse_role(b@, *old(pos) as int) {
            Some((v, p2)) => r == Some(v) && *final(pos) as int == p2,
            None => r is None,
        },
{
    match read_u8(b, pos) {
        None => None,
        Some(t) => {
            if t == 0 { Some(RoleEnum::MARKETMAKER) } else if t == 1 { Some(RoleEnum::TRADER) } else { None }
        },
    }
}

pub open spec fn parse_organization_type(b: Seq<u8>, p: int) -> Option<(OrganizationTypeEnum, int)> {
    match parse_u8(b, p) {
        None => None,
        Some((t, p1)) => {
            if t == 0 { Some((OrganizationTypeEnum::TRADINGFIRM, p1)) } else if t == 1 { Some((OrganizationTypeEnum::PRICINGSOURCE, p1)) } else { None }
        },
    }
}

fn read_organization_type(b: &Vec<u8>, pos: &mut usize) -> (r: Option<OrganizationTypeEnum>)
    ensures
        match parse_organization_type(b@, *old(pos) as int) {
            Some((v, p2)) => r == Some(v) && *final(pos) as int == p2,
            None => r is None,
        },
{
    match read_u8(b, pos) {
        None => None,
        Some(t) => {
            if t == 0 { Some(OrganizationTypeEnum::TRADINGFIRM) } else if t == 1 { Some(OrganizationTypeEnum::PRICINGSOURCE) } else { None }
        },
    }
}

pub open spec fn parse_order_action(b: Seq<u8>, p: int) -> Option<(OrderActionEnum, int)> {
    match parse_u8(b, p) {
        None => None,
        Some((t, p1)) => {
            if t == 0 { Some((OrderActionEnum::BUY, p1)) } else if t == 1 { Some((OrderActionEnum::SELL, p1)) } else { None }
        },
    }
}

fn read_order_action(b: &Vec<u8>, pos: &mut usize) -> (r: Option<OrderActionEnum>)
    ensures
        match parse_order_action(b@, *old(pos) as int) {
            Some((v, p2)) => r == Some(v) && *final(pos) as int == p2,
            None => r is None,
        },
{
    match read_u8(b, pos) {
        None => None,
        Some(t) => {
            if t == 0 { Some(OrderActionEnum::BUY) } else if t == 1 { Some(OrderActionEnum::SELL) } else { None }
        },
    }
}

pub open spec fn parse_asset_type(b: Seq<u8>, p: int) -> Option<(AssetTypeEnum, int)> {
    match parse_u8(b, p) {
        None => None,
        Some((t, p1)) => {
            if t == 0 { Some((AssetTypeEnum::CURRENCY, p1)) } else if t == 1 { Some((AssetTypeEnum::BOND, p1)) } else { None }
        },
    }
}

fn read_asset_type(b: &Vec<u8>, pos: &mut usize) -> (r: Option<AssetTypeEnum>)
    ensures
        match parse_asset_type(b@, *old(pos) as int) {
            Some((v, p2)) => r == Some(v) && *final(pos) as int == p2,
            None => r is None,
        },
{
    match read_u8(b, pos) {
        None => None,
        Some(t) => {
            if t == 0 { Some(AssetTypeEnum::CURRENCY) } else if t == 1 { Some(AssetTypeEnum::BOND) } else { None }
        },
    }
}

pub open spec fn parse_order_status(b: Seq<u8>, p: int) -> Option<(OrderStatusEnum, int)> {
    match parse_u8(b, p) {
        None => None,
        Some((t, p1)) => {
            if t == 0 { Some((OrderStatusEnum::OPEN, p1)) } else if t == 1 { Some((OrderStatusEnum::MATCHED, p1)) } else if t == 2 { Some((OrderStatusEnum::SETTLED, p1)) } else { None }
        },
    }
}

fn read_order_status(b: &Vec<u8>, pos: &mut usize) -> (r: Option<OrderStatusEnum>)
    ensures
        match parse_order_status(b@, *old(pos) as int) {
            Some((v, p2)) => r == Some(v) && *final(pos) as int == p2,
            None => r is None,
        },
{
    match read_u8(b, pos) {
        None => None,
        Some(t) => {
            if t == 0 { Some(OrderStatusEnum::OPEN) } else if t == 1 { Some(OrderStatusEnum::MATCHED) } else if t == 2 { Some(OrderStatusEnum::SETTLED) } else { None }
        },
    }
}

pub open spec fn parse_order_type(b: Seq<u8>, p: int) -> Option<(OrderTypeEnum, int)> {
    match parse_u8(b, p) {
        None => None,
        Some((t, p1)) => {
            if t == 0 { Some((OrderTypeEnum::MARKET, p1)) } else if t == 1 { Some((OrderTypeEnum::LIMIT, p1)) } else { None }
        },
    }
}

fn read_order_type(b: &Vec<u8>, pos: &mut usize) -> (r: Option<OrderTypeEnum>)
    ensures
        match parse_order_type(b@, *old(pos) as int) {
            Some((v, p2)) => r == Some(v) && *final(pos) as int == p2,
            None => r is None,
        },
{
    match read_u8(b, pos) {
        None => None,
        Some(t) => {
            if t == 0 { Some(OrderTypeEnum::MARKET) } else if t == 1 { Some(OrderTypeEnum::LIMIT) } else { None }
        },
    }
}

pub open spec fn parse_coupon_type(b: Seq<u8>, p: int) -> Option<(CouponTypeEnum, int)> {
    match parse_u8(b, p) {
        None => None,
        Some((t, p1)) => {
            if t == 0 { Some((CouponTypeEnum::FIXED, p1)) } else if t == 1 { Some((CouponTypeEnum::FLOATING, p1)) } else { None }
        },
    }
}

fn read_coupon_type(b: &Vec<u8>, pos: &mut usize) -> (r: Option<CouponTypeEnum>)
    ensures
        match parse_coupon_type(b@, *old(pos) as int) {
            Some((v, p2)) => r == Some(v) && *final(pos) as int == p2,
            None => r is None,
        },
{
    match read_u8(b, pos) {
        None => None,
        Some(t) => {
            if t == 0 { Some(CouponTypeEnum::FIXED) } else if t == 1 { Some(CouponTypeEnum::FLOATING) } else { None }
        },
    }
}

pub open spec fn parse_coupon_frequency(b: Seq<u8>, p: int) -> Option<(CouponFrequencyEnum, int)> {
    match parse_u8(b, p) {
        None => None,
        Some((t, p1)) => {
            if t == 0 { Some((CouponFrequencyEnum::QUARTERLY, p1)) } else if t == 1 { Some((CouponFrequencyEnum::MONTHLY, p1)) } else if t == 2 { Some((CouponFrequencyEnum::DAILY, p1)) } else { None }
        },
    }
}

fn read_coupon_frequency(b: &Vec<u8>, pos: &mut usize) -> (r: Option<CouponFrequencyEnum>)
    ensures
        match parse_coupon_frequency(b@, *old(pos) as int) {
            Some((v, p2)) => r == Some(v) && *final(pos) as int == p2,
            None => r is None,
        },
{
    match read_u8(b, pos) {
        None => None,
        Some(t) => {
            if t == 0 { Some(CouponFrequencyEnum::QUARTERLY) } else if t == 1 { Some(CouponFrequencyEnum::MONTHLY) } else if t == 2 { Some(CouponFrequencyEnum::DAILY) } else { None }
        },
    }
}

pub open spec fn parse_payment_type(b: Seq<u8>, p: int) -> Option<(PaymentTypeEnum, int)> {
    match parse_u8(b, p) {
        None => None,
        Some((t, p1)) => {
            if t == 0 { Some((PaymentTypeEnum::COUPON, p1)) } else if t == 1 { Some((PaymentTypeEnum::REDEMPTION, p1)) } else { None }
        },
    }
}

fn read_payment_type(b: &Vec<u8>, pos: &mut usize) -> (r: Option<PaymentTypeEnum>)
    ensures
        match parse_payment_type(b@, *old(pos) as int) {
            Some((v, p2)) => r == Some(v) && *final(pos) as int == p2,
            None => r is None,
        },
{
    match read_u8(b, pos) {
        None => None,
        Some(t) => {
            if t == 0 { Some(PaymentTypeEnum::COUPON) } else if t == 1 { Some(PaymentTypeEnum::REDEMPTION) } else { None }
        },
    }
}

pub open spec fn parse_quote_status(b: Seq<u8>, p: int) -> Option<(QuoteStatusEnum, int)> {
    match parse_u8(b, p) {
        None => None,
        Some((t, p1)) => {
            if t == 0 { Some((QuoteStatusEnum::OPEN, p1)) } else if t == 1 { Some((QuoteStatusEnum::CLOSED, p1)) } else { None }
        },
    }
}

fn read_quote_status(b: &Vec<u8>, pos: &mut usize) -> (r: Option<QuoteStatusEnum>)
    ensures
        match parse_quote_status(b@, *old(pos) as int) {
            Some((v, p2)) => r == Some(v) && *final(pos) as int == p2,
            None => r is None,
        },
{
    match read_u8(b, pos) {
        None => None,
        Some(t) => {
            if t == 0 { Some(QuoteStatusEnum::OPEN) } else if t == 1 { Some(QuoteStatusEnum::CLOSED) } else { None }
        },
    }
}

/// Wire message for a authorization record.
pub struct AuthorizationMsg {
    pub public_key: String,
    pub role: RoleEnum,
}

pub struct AuthorizationMsgV {
    pub public_key: Seq<char>,
    pub role: RoleEnum,
}

impl View for AuthorizationMsg {
    type V = AuthorizationMsgV;

    open spec fn view(&self) -> AuthorizationMsgV {
        AuthorizationMsgV {
            public_key: self.public_key@,
            role: self.role,
        }
    }
}

impl DeepView for AuthorizationMsg {
    type V = AuthorizationMsgV;

    open spec fn deep_view(&self) -> AuthorizationMsgV {
        self.view()
    }
}

/// Wire message for a corporate debt rating record.
pub struct CorporateDebtRatingMsg {
    pub agency: String,
    pub rating: String,
}

pub struct CorporateDebtRatingMsgV {
    pub agency: Seq<char>,
    pub rating: Seq<char>,
}

impl View for CorporateDebtRatingMsg {
    type V = CorporateDebtRatingMsgV;

    open spec fn view(&self) -> CorporateDebtRatingMsgV {
        CorporateDebtRatingMsgV {
            agency: self.agency@,
            rating: self.rating@,
        }
    }
}

impl DeepView for CorporateDebtRatingMsg {
    type V = CorporateDebtRatingMsgV;

    open spec fn deep_view(&self) -> CorporateDebtRatingMsgV {
        self.view()
    }
}

/// Wire message for a participant record.
pub struct ParticipantMsg {
    pub public_key: String,
    pub organization_id: String,
    pub username: String,
}

pub struct ParticipantMsgV {
    pub public_key: Seq<char>,
    pub organization_id: Seq<char>,
    pub username: Seq<char>,
}

impl View for ParticipantMsg {
    type V = ParticipantMsgV;

    open spec fn view(&self) -> ParticipantMsgV {
        ParticipantMsgV {
            public_key: self.public_key@,
            organization_id: self.organization_id@,
            username: self.username@,
        }
    }
}

impl DeepView for ParticipantMsg {
    type V = ParticipantMsgV;

    open spec fn deep_view(&self) -> ParticipantMsgV {
        self.view()
    }
}

/// Wire message for a organization record.
pub struct OrganizationMsg {
    pub organization_id: String,
    pub industry: String,
    pub name: String,
    pub organization_type: OrganizationTypeEnum,
    pub authorizations: Vec<AuthorizationMsg>,
}

pub struct OrganizationMsgV {
    pub organization_id: Seq<char>,
    pub industry: Seq<char>,
    pub name: Seq<char>,
    pub organization_type: OrganizationTypeEnum,
    pub authorizations: Seq<AuthorizationMsgV>,
}

impl View for OrganizationMsg {
    type V = OrganizationMsgV;

    open spec fn view(&self) -> OrganizationMsgV {
        OrganizationMsgV {
            organization_id: self.organization_id@,
            industry: self.industry@,
            name: self.name@,
            organization_type: self.organization_type,
            authorizations: self.authorizations.deep_view(),
        }
    }
}

impl DeepView for OrganizationMsg {
    type V = OrganizationMsgV;

    open spec fn deep_view(&self) -> OrganizationMsgV {
        self.view()
    }
}

/// Wire message for a settlement record.
pub struct SettlementMsg {
    pub order_id: String,
    pub ordering_organization_id: String,
    pub quoting_organization_id: String,
    pub action: OrderActionEnum,
    pub bond_quantity: i64,
    pub currency_amount: i64,
}

pub struct SettlementMsgV {
    pub order_id: Seq<char>,
    pub ordering_organization_id: Seq<char>,
    pub quoting_organization_id: Seq<char>,
    pub action: OrderActionEnum,
    pub bond_quantity: int,
    pub currency_amount: int,
}

impl View for SettlementMsg {
    type V = SettlementMsgV;

    open spec fn view(&self) -> SettlementMsgV {
        SettlementMsgV {
            order_id: self.order_id@,
            ordering_organization_id: self.ordering_organization_id@,
            quoting_organization_id: self.quoting_organization_id@,
            action: self.action,
            bond_quantity: self.bond_quantity as int,
            currency_amount: self.currency_amount as int,
        }
    }
}

impl DeepView for SettlementMsg {
    type V = SettlementMsgV;

    open spec fn deep_view(&self) -> SettlementMsgV {
        self.view()
    }
}

/// Wire message for a holding record.
pub struct HoldingMsg {
    pub organization_id: String,
    pub asset_id: String,
    pub asset_type: AssetTypeEnum,
    pub amount: i64,
}

pub struct HoldingMsgV {
    pub organization_id: Seq<char>,
    pub asset_id: Seq<char>,
    pub asset_type: AssetTypeEnum,
    pub amount: int,
}

impl View for HoldingMsg {
    type V = HoldingMsgV;

    open spec fn view(&self) -> HoldingMsgV {
        HoldingMsgV {
            organization_id: self.organization_id@,
            asset_id: self.asset_id@,
            asset_type: self.asset_type,
            amount: self.amount as int,
        }
    }
}

impl DeepView for HoldingMsg {
    type V = HoldingMsgV;

    open spec fn deep_view(&self) -> HoldingMsgV {
        self.view()
    }
}

/// Wire message for a order record.
pub struct OrderMsg {
    pub bond_id: String,
    pub ordering_organization_id: String,
    pub order_id: String,
    pub limit_price: i64,
    pub limit_yield: i64,
    pub quantity: i64,
    pub quote_id: String,
    pub status: OrderStatusEnum,
    pub action: OrderActionEnum,
    pub order_type: OrderTypeEnum,
    pub timestamp: i64,
}

pub struct OrderMsgV {
    pub bond_id: Seq<char>,
    pub ordering_organization_id: Seq<char>,
    pub order_id: Seq<char>,
    pub limit_price: int,
    pub limit_yield: int,
    pub quantity: int,
    pub quote_id: Seq<char>,
    pub status: OrderStatusEnum,
    pub action: OrderActionEnum,
    pub order_type: OrderTypeEnum,
    pub timestamp: int,
}

impl View for OrderMsg {
    type V = OrderMsgV;

    open spec fn view(&self) -> OrderMsgV {
        OrderMsgV {
            bond_id: self.bond_id@,
            ordering_organization_id: self.ordering_organization_id@,
            order_id: self.order_id@,
            limit_price: self.limit_price as int,
            limit_yield: self.limit_yield as int,
            quantity: self.quantity as int,
            quote_id: self.quote_id@,
            status: self.status,
            action: self.action,
            order_type: self.order_type,
            timestamp: self.timestamp as int,
        }
    }
}

impl DeepView for OrderMsg {
    type V = OrderMsgV;

    open spec fn deep_view(&self) -> OrderMsgV {
        self.view()
    }
}

/// Wire message for a bond record.
pub struct BondMsg {
    pub bond_id: String,
    pub issuing_organization_id: String,
    pub amount_outstanding: i64,
    pub coupon_rate: i64,
    pub first_coupon_date: i64,
    pub first_settlement_date: i64,
    pub maturity_date: i64,
    pub face_value: i64,
    pub coupon_type: CouponTypeEnum,
    pub coupon_frequency: CouponFrequencyEnum,
    pub corporate_debt_ratings: Vec<CorporateDebtRatingMsg>,
}

pub struct BondMsgV {
    pub bond_id: Seq<char>,
    pub issuing_organization_id: Seq<char>,
    pub amount_outstanding: int,
    pub coupon_rate: int,
    pub first_coupon_date: int,
    pub first_settlement_date: int,
    pub maturity_date: int,
    pub face_value: int,
    pub coupon_type: CouponTypeEnum,
    pub coupon_frequency: CouponFrequencyEnum,
    pub corporate_debt_ratings: Seq<CorporateDebtRatingMsgV>,
}

impl View for BondMsg {
    type V = BondMsgV;

    open spec fn view(&self) -> BondMsgV {
        BondMsgV {
            bond_id: self.bond_id@,
            issuing_organization_id: self.issuing_organization_id@,
            amount_outstanding: self.amount_outstanding as int,
            coupon_rate: self.coupon_rate as int,
            first_coupon_date: self.first_coupon_date as int,
            first_settlement_date: self.first_settlement_date as int,
            maturity_date: self.maturity_date as int,
            face_value: self.face_value as int,
            coupon_type: self.coupon_type,
            coupon_frequency: self.coupon_frequency,
            corporate_debt_ratings: self.corporate_debt_ratings.deep_view(),
        }
    }
}

impl DeepView for BondMsg {
    type V = BondMsgV;

    open spec fn deep_view(&self) -> BondMsgV {
        self.view()
    }
}

/// Wire message for a receipt record.
pub struct ReceiptMsg {
    pub organization_id: String,
    pub bond_id: String,
    pub payment_type: PaymentTypeEnum,
    pub coupon_date: i64,
    pub amount: i64,
    pub timestamp: i64,
}

pub struct ReceiptMsgV {
    pub organization_id: Seq<char>,
    pub bond_id: Seq<char>,
    pub payment_type: PaymentTypeEnum,
    pub coupon_date: int,
    pub amount: int,
    pub timestamp: int,
}

impl View for ReceiptMsg {
    type V = ReceiptMsgV;

    open spec fn view(&self) -> ReceiptMsgV {
        ReceiptMsgV {
            organization_id: self.organization_id@,
            bond_id: self.bond_id@,
            payment_type: self.payment_type,
            coupon_date: self.coupon_date as int,
            amount: self.amount as int,
            timestamp: self.timestamp as int,
        }
    }
}

impl DeepView for ReceiptMsg {
    type V = ReceiptMsgV;

    open spec fn deep_view(&self) -> ReceiptMsgV {
        self.view()
    }
}

/// Wire message for a quote record.
pub struct QuoteMsg {
    pub bond_id: String,
    pub organization_id: String,
    pub ask_price: i64,
    pub ask_qty: i64,
    pub bid_price: i64,
    pub bid_qty: i64,
    pub status: QuoteStatusEnum,
    pub timestamp: i64,
}

pub struct QuoteMsgV {
    pub bond_id: Seq<char>,
    pub organization_id: Seq<char>,
    pub ask_price: int,
    pub ask_qty: int,
    pub bid_price: int,
    pub bid_qty: int,
    pub status: QuoteStatusEnum,
    pub timestamp: int,
}

impl View for QuoteMsg {
    type V = QuoteMsgV;

    open spec fn view(&self) -> QuoteMsgV {
        QuoteMsgV {
            bond_id: self.bond_id@,
            organization_id: self.organization_id@,
            ask_price: self.ask_price as int,
            ask_qty: self.ask_qty as int,
            bid_price: self.bid_price as int,
            bid_qty: self.bid_qty as int,
            status: self.status,
            timestamp: self.timestamp as int,
        }
    }
}

impl DeepView for QuoteMsg {
    type V = QuoteMsgV;

    open spec fn deep_view(&self) -> QuoteMsgV {
        self.view()
    }
}

pub open spec fn parse_authorization_msg(b: Seq<u8>, p: int) -> Option<(AuthorizationMsgV, int)> {
    match parse_string(b, p) {
        None => None,
        Some((public_key, p1)) => {
        match parse_role(b, p1) {
            None => None,
            Some((role, p2)) => {
            Some((AuthorizationMsgV { public_key: public_key, role: role }, p2))
            },
        }
        },
    }
}

fn read_authorization_msg(b: &Vec<u8>, pos: &mut usize) -> (r: Option<AuthorizationMsg>)
    ensures
        match parse_authorization_msg(b@, *old(pos) as int) {
            Some((m, p2)) => r is Some && r.unwrap()@ == m && *final(pos) as int == p2,
            None => r is None,
        },
{
    proof {
        assert(b.len() == b@.len());
    }
    let public_key = match read_string(b, pos) {
        None => {
            return None;
        },
        Some(v) => v,
    };
    let role = match read_role(b, pos) {
        None => {
            return None;
        },
        Some(v) => v,
    };
    Some(AuthorizationMsg { public_key: public_key, role: role })
}

pub open spec fn parse_corporate_debt_rating_msg(b: Seq<u8>, p: int) -> Option<(CorporateDebtRatingMsgV, int)> {
    match parse_string(b, p) {
        None => None,
        Some((agency, p1)) => {
        match parse_string(b, p1) {
            None => None,
            Some((rating, p2)) => {
            Some((CorporateDebtRatingMsgV { agency: agency, rating: rating }, p2))
            },
        }
        },
    }
}

fn read_corporate_debt_rating_msg(b: &Vec<u8>, pos: &mut usize) -> (r: Option<CorporateDebtRatingMsg>)
    ensures
        match parse_corporate_debt_rating_msg(b@, *old(pos) as int) {
            Some((m, p2)) => r is Some && r.unwrap()@ == m && *final(pos) as int == p2,
            None => r is None,
        },
{
    proof {
        assert(b.len() == b@.len());
    }
    let agency = match read_string(b, pos) {
        None => {
            return None;
        },
        Some(v) => v,
    };
    let rating = match read_string(b, pos) {
        None => {
            return None;
        },
        Some(v) => v,
    };
    Some(CorporateDebtRatingMsg { agency: agency, rating: rating })
}

pub open spec fn parse_participant_msg(b: Seq<u8>, p: int) -> Option<(ParticipantMsgV, int)> {
    match parse_string(b, p) {
        None => None,
        Some((public_key, p1)) => {
        match parse_string(b, p1) {
            None => None,
            Some((organization_id, p2)) => {
            match parse_string(b, p2) {
                None => None,
                Some((username, p3)) => {
                Some((ParticipantMsgV { public_key: public_key, organization_id: organization_id, username: username }, p3))
                },
            }
            },
        }
        },
    }
}

fn read_participant_msg(b: &Vec<u8>, pos: &mut usize) -> (r: Option<ParticipantMsg>)
    ensures
        match parse_participant_msg(b@, *old(pos) as int) {
            Some((m, p2)) => r is Some && r.unwrap()@ == m && *final(pos) as int == p2,
            None => r is None,
        },
{
    proof {
        assert(b.len() == b@.len());
    }
    let public_key = match read_string(b, pos) {
        None => {
            return None;
        },
        Some(v) => v,
    };
    let organization_id = match read_string(b, pos) {
        None => {
            return None;
        },
        Some(v) => v,
    };
    let username = match read_string(b, pos) {
        None => {
            return None;
        },
        Some(v) => v,
    };
    Some(ParticipantMsg { public_key: public_key, organization_id: organization_id, username: username })
}

pub open spec fn parse_organization_msg(b: Seq<u8>, p: int) -> Option<(OrganizationMsgV, int)> {
    match parse_string(b, p) {
        None => None,
        Some((organization_id, p1)) => {
        match parse_string(b, p1) {
            None => None,
            Some((industry, p2)) => {
            match parse_string(b, p2) {
                None => None,
                Some((name, p3)) => {
                match parse_organization_type(b, p3) {
                    None => None,
                    Some((organization_type, p4)) => {
                    match parse_u16(b, p4) {
                        None => None,
                        Some((cnt4, q4)) => match parse_authorization_list(b, q4, cnt4) {
                            None => None,
                            Some((authorizations, p5)) => {
                        Some((OrganizationMsgV { organization_id: organization_id, industry: industry, name: name, organization_type: organization_type, authorizations: authorizations }, p5))
                            },
                        },
                    }
                    },
                }
                },
            }
            },
        }
        },
    }
}

fn read_organization_msg(b: &Vec<u8>, pos: &mut usize) -> (r: Option<OrganizationMsg>)
    ensures
        match parse_organization_msg(b@, *old(pos) as int) {
            Some((m, p2)) => r is Some && r.unwrap()@ == m && *final(pos) as int == p2,
            None => r is None,
        },
{
    proof {
        assert(b.len() == b@.len());
    }
    let organization_id = match read_string(b, pos) {
        None => {
            return None;
        },
        Some(v) => v,
    };
    let industry = match read_string(b, pos) {
        None => {
            return None;
        },
        Some(v) => v,
    };
    let name = match read_string(b, pos) {
        None => {
            return None;
        },
        Some(v) => v,
    };
    let organization_type = match read_organization_type(b, pos) {
        None => {
            return None;
        },
        Some(v) => v,
    };
    let authorizations = match read_authorization_list(b, pos) {
        None => {
            return None;
        },
        Some(v) => v,
    };
    Some(OrganizationMsg { organization_id: organization_id, industry: industry, name: name, organization_type: organization_type, authorizations: authorizations })
}

pub open spec fn parse_settlement_msg(b: Seq<u8>, p: int) -> Option<(SettlementMsgV, int)> {
    match parse_string(b, p) {
        None => None,
        Some((order_id, p1)) => {
        match parse_string(b, p1) {
            None => None,
            Some((ordering_organization_id, p2)) => {
            match parse_string(b, p2) {
                None => None,
                Some((quoting_organization_id, p3)) => {
                match parse_order_action(b, p3) {
                    None => None,
                    Some((action, p4)) => {
                    match parse_i64_field(b, p4) {
                        None => None,
                        Some((bond_quantity, p5)) => {
                        match parse_i64_field(b, p5) {
                            None => None,
                            Some((currency_amount, p6)) => {
                            Some((SettlementMsgV { order_id: order_id, ordering_organization_id: ordering_organization_id, quoting_organization_id: quoting_organization_id, action: action, bond_quantity: bond_quantity as int, currency_amount: currency_amount as int }, p6))
                            },
                        }
                        },
                    }
                    },
                }
                },
            }
            },
        }
        },
    }
}

fn read_settlement_msg(b: &Vec<u8>, pos: &mut usize) -> (r: Option<SettlementMsg>)
    ensures
        match parse_settlement_msg(b@, *old(pos) as int) {
            Some((m, p2)) => r is Some && r.unwrap()@ == m && *final(pos) as int == p2,
            None => r is None,
        },
{
    proof {
        assert(b.len() == b@.len());
    }
    let order_id = match read_string(b, pos) {
        None => {
            return None;
        },
        Some(v) => v,
    };
    let ordering_organization_id = match read_string(b, pos) {
        None => {
            return None;
        },
        Some(v) => v,
    };
    let quoting_organization_id = match read_string(b, pos) {
        None => {
            return None;
        },
        Some(v) => v,
    };
    let action = match read_order_action(b, pos) {
        None => {
            return None;
        },
        Some(v) => v,
    };
    let bond_quantity = match read_i64_field(b, pos) {
        None => {
            return None;
        },
        Some(v) => v,
    };
    let currency_amount = match read_i64_field(b, pos) {
        None => {
            return None;
        },
        Some(v) => v,
    };
    Some(SettlementMsg { order_id: order_id, ordering_organization_id: ordering_organization_id, quoting_organization_id: quoting_organization_id, action: action, bond_quantity: bond_quantity, currency_amount: currency_amount })
}

pub open spec fn parse_holding_msg(b: Seq<u8>, p: int) -> Option<(HoldingMsgV, int)> {
    match parse_string(b, p) {
        None => None,
        Some((organization_id, p1)) => {
        match parse_string(b, p1) {
            None => None,
            Some((asset_id, p2)) => {
            match parse_asset_type(b, p2) {
                None => None,
                Some((asset_type, p3)) => {
                match parse_i64_field(b, p3) {
                    None => None,
                    Some((amount, p4)) => {
                    Some((HoldingMsgV { organization_id: organization_id, asset_id: asset_id, asset_type: asset_type, amount: amount as int }, p4))
                    },
                }
                },
            }
            },
        }
        },
    }
}

fn read_holding_msg(b: &Vec<u8>, pos: &mut usize) -> (r: Option<HoldingMsg>)
    ensures
        match parse_holding_msg(b@, *old(pos) as int) {
            Some((m, p2)) => r is Some && r.unwrap()@ == m && *final(pos) as int == p2,
            None => r is None,
        },
{
    proof {
        assert(b.len() == b@.len());
    }
    let organization_id = match read_string(b, pos) {
        None => {
            return None;
        },
        Some(v) => v,
    };
    let asset_id = match read_string(b, pos) {
        None => {
            return None;
        },
        Some(v) => v,
    };
    let asset_type = match read_asset_type(b, pos) {
        None => {
            return None;
        },
        Some(v) => v,
    };
    let amount = match read_i64_field(b, pos) {
        None => {
            return None;
        },
        Some(v) => v,
    };
    Some(HoldingMsg { organization_id: organization_id, asset_id: asset_id, asset_type: asset_type, amount: amount })
}

pub open spec fn parse_order_msg(b: Seq<u8>, p: int) -> Option<(OrderMsgV, int)> {
    match parse_string(b, p) {
        None => None,
        Some((bond_id, p1)) => {
        match parse_string(b, p1) {
            None => None,
            Some((ordering_organization_id, p2)) => {
            match parse_string(b, p2) {
                None => None,
                Some((order_id, p3)) => {
                match parse_i64_field(b, p3) {
                    None => None,
                    Some((limit_price, p4)) => {
                    match parse_i64_field(b, p4) {
                        None => None,
                        Some((limit_yield, p5)) => {
                        match parse_i64_field(b, p5) {
                            None => None,
                            Some((quantity, p6)) => {
                            match parse_string(b, p6) {
                                None => None,
                                Some((quote_id, p7)) => {
                                match parse_order_status(b, p7) {
                                    None => None,
                                    Some((status, p8)) => {
                                    match parse_order_action(b, p8) {
                                        None => None,
                                        Some((action, p9)) => {
                                        match parse_order_type(b, p9) {
                                            None => None,
                                            Some((order_type, p10)) => {
                                            match parse_i64_field(b, p10) {
                                                None => None,
                                                Some((timestamp, p11)) => {
                                                Some((OrderMsgV { bond_id: bond_id, ordering_organization_id: ordering_organization_id, order_id: order_id, limit_price: limit_price as int, limit_yield: limit_yield as int, quantity: quantity as int, quote_id: quote_id, status: status, action: action, order_type: order_type, timestamp: timestamp as int }, p11))
                                                },
                                            }
                                            },
                                        }
                                        },
                                    }
                                    },
                                }
                                },
                            }
                            },
                        }
                        },
                    }
                    },
                }
                },
            }
            },
        }
        },
    }
}

fn read_order_msg(b: &Vec<u8>, pos: &mut usize) -> (r: Option<OrderMsg>)
    ensures
        match parse_order_msg(b@, *old(pos) as int) {
            Some((m, p2)) => r is Some && r.unwrap()@ == m && *final(pos) as int == p2,
            None => r is None,
        },
{
    proof {
        assert(b.len() == b@.len());
    }
    let bond_id = match read_string(b, pos) {
        None => {
            return None;
        },
        Some(v) => v,
    };
    let ordering_organization_id = match read_string(b, pos) {
        None => {
            return None;
        },
        Some(v) => v,
    };
    let order_id = match read_string(b, pos) {
        None => {
            return None;
        },
        Some(v) => v,
    };
    let limit_price = match read_i64_field(b, pos) {
        None => {
            return None;
        },
        Some(v) => v,
    };
    let limit_yield = match read_i64_field(b, pos) {
        None => {
            return None;
        },
        Some(v) => v,
    };
    let quantity = match read_i64_field(b, pos) {
        None => {
            return None;
        },
        Some(v) => v,
    };
    let quote_id = match read_string(b, pos) {
        None => {
            return None;
        },
        Some(v) => v,
    };
    let status = match read_order_status(b, pos) {
        None => {
            return None;
        },
        Some(v) => v,
    };
    let action = match read_order_action(b, pos) {
        None => {
            return None;
        },
        Some(v) => v,
    };
    let order_type = match read_order_type(b, pos) {
        None => {
            return None;
        },
        Some(v) => v,
    };
    let timestamp = match read_i64_field(b, pos) {
        None => {
            return None;
        },
        Some(v) => v,
    };
    Some(OrderMsg { bond_id: bond_id, ordering_organization_id: ordering_organization_id, order_id: order_id, limit_price: limit_price, limit_yield: limit_yield, quantity: quantity, quote_id: quote_id, status: status, action: action, order_type: order_type, timestamp: timestamp })
}

pub open spec fn parse_bond_msg(b: Seq<u8>, p: int) -> Option<(BondMsgV, int)> {
    match parse_string(b, p) {
        None => None,
        Some((bond_id, p1)) => {
        match parse_string(b, p1) {
            None => None,
            Some((issuing_organization_id, p2)) => {
            match parse_i64_field(b, p2) {
                None => None,
                Some((amount_outstanding, p3)) => {
                match parse_i64_field(b, p3) {
                    None => None,
                    Some((coupon_rate, p4)) => {
                    match parse_i64_field(b, p4) {
                        None => None,
                        Some((first_coupon_date, p5)) => {
                        match parse_i64_field(b, p5) {
                            None => None,
                            Some((first_settlement_date, p6)) => {
                            match parse_i64_field(b, p6) {
                                None => None,
                                Some((maturity_date, p7)) => {
                                match parse_i64_field(b, p7) {
                                    None => None,
                                    Some((face_value, p8)) => {
                                    match parse_coupon_type(b, p8) {
                                        None => None,
                                        Some((coupon_type, p9)) => {
                                        match parse_coupon_frequency(b, p9) {
                                            None => None,
                                            Some((coupon_frequency, p10)) => {
                                            match parse_u16(b, p10) {
                                                None => None,
                                                Some((cnt10, q10)) => match parse_corporate_debt_rating_list(b, q10, cnt10) {
                                                    None => None,
                                                    Some((corporate_debt_ratings, p11)) => {
                                                Some((BondMsgV { bond_id: bond_id, issuing_organization_id: issuing_organization_id, amount_outstanding: amount_outstanding as int, coupon_rate: coupon_rate as int, first_coupon_date: first_coupon_date as int, first_settlement_date: first_settlement_date as int, maturity_date: maturity_date as int, face_value: face_value as int, coupon_type: coupon_type, coupon_frequency: coupon_frequency, corporate_debt_ratings: corporate_debt_ratings }, p11))
                                                    },
                                                },
                                            }
                                            },
                                        }
                                        },
                                    }
                                    },
                                }
                                },
                            }
                            },
                        }
                        },
                    }
                    },
                }
                },
            }
            },
        }
        },
    }
}

fn read_bond_msg(b: &Vec<u8>, pos: &mut usize) -> (r: Option<BondMsg>)
    ensures
        match parse_bond_msg(b@, *old(pos) as int) {
            Some((m, p2)) => r is Some && r.unwrap()@ == m && *final(pos) as int == p2,
            None => r is None,
        },
{
    proof {
        assert(b.len() == b@.len());
    }
    let bond_id = match read_string(b, pos) {
        None => {
            return None;
        },
        Some(v) => v,
    };
    let issuing_organization_id = match read_string(b, pos) {
        None => {
            return None;
        },
        Some(v) => v,
    };
    let amount_outstanding = match read_i64_field(b, pos) {
        None => {
            return None;
        },
        Some(v) => v,
    };
    let coupon_rate = match read_i64_field(b, pos) {
        None => {
            return None;
        },
        Some(v) => v,
    };
    let first_coupon_date = match read_i64_field(b, pos) {
        None => {
            return None;
        },
        Some(v) => v,
    };
    let first_settlement_date = match read_i64_field(b, pos) {
        None => {
            return None;
        },
        Some(v) => v,
    };
    let maturity_date = match read_i64_field(b, pos) {
        None => {
            return None;
        },
        Some(v) => v,
    };
    let face_value = match read_i64_field(b, pos) {
        None => {
            return None;
        },
        Some(v) => v,
    };
    let coupon_type = match read_coupon_type(b, pos) {
        None => {
            return None;
        },
        Some(v) => v,
    };
    let coupon_frequency = match read_coupon_frequency(b, pos) {
        None => {
            return None;
        },
        Some(v) => v,
    };
    let corporate_debt_ratings = match read_corporate_debt_rating_list(b, pos) {
        None => {
            return None;
        },
        Some(v) => v,
    };
    Some(BondMsg { bond_id: bond_id, issuing_organization_id: issuing_organization_id, amount_outstanding: amount_outstanding, coupon_rate: coupon_rate, first_coupon_date: first_coupon_date, first_settlement_date: first_settlement_date, maturity_date: maturity_date, face_value: face_value, coupon_type: coupon_type, coupon_frequency: coupon_frequency, corporate_debt_ratings: corporate_debt_ratings })
}

pub open spec fn parse_receipt_msg(b: Seq<u8>, p: int) -> Option<(ReceiptMsgV, int)> {
    match parse_string(b, p) {
        None => None,
        Some((organization_id, p1)) => {
        match parse_string(b, p1) {
            None => None,
            Some((bond_id, p2)) => {
            match parse_payment_type(b, p2) {
                None => None,
                Some((payment_type, p3)) => {
                match parse_i64_field(b, p3) {
                    None => None,
                    Some((coupon_date, p4)) => {
                    match parse_i64_field(b, p4) {
                        None => None,
                        Some((amount, p5)) => {
                        match parse_i64_field(b, p5) {
                            None => None,
                            Some((timestamp, p6)) => {
                            Some((ReceiptMsgV { organization_id: organization_id, bond_id: bond_id, payment_type: payment_type, coupon_date: coupon_date as int, amount: amount as int, timestamp: timestamp as int }, p6))
                            },
                        }
                        },
                    }
                    },
                }
                },
            }
            },
        }
        },
    }
}

fn read_receipt_msg(b: &Vec<u8>, pos: &mut usize) -> (r: Option<ReceiptMsg>)
    ensures
        match parse_receipt_msg(b@, *old(pos) as int) {
            Some((m, p2)) => r is Some && r.unwrap()@ == m && *final(pos) as int == p2,
            None => r is None,
        },
{
    proof {
        assert(b.len() == b@.len());
    }
    let organization_id = match read_string(b, pos) {
        None => {
            return None;
        },
        Some(v) => v,
    };
    let bond_id = match read_string(b, pos) {
        None => {
            return None;
        },
        Some(v) => v,
    };
    let payment_type = match read_payment_type(b, pos) {
        None => {
            return None;
        },
        Some(v) => v,
    };
    let coupon_date = match read_i64_field(b, pos) {
        None => {
            return None;
        },
        Some(v) => v,
    };
    let amount = match read_i64_field(b, pos) {
        None => {
            return None;
        },
        Some(v) => v,
    };
    let timestamp = match read_i64_field(b, pos) {
        None => {
            return None;
        },
        Some(v) => v,
    };
    Some(ReceiptMsg { organization_id: organization_id, bond_id: bond_id, payment_type: payment_type, coupon_date: coupon_date, amount: amount, timestamp: timestamp })
}

pub open spec fn parse_quote_msg(b: Seq<u8>, p: int) -> Option<(QuoteMsgV, int)> {
    match parse_string(b, p) {
        None => None,
        Some((bond_id, p1)) => {
        match parse_string(b, p1) {
            None => None,
            Some((organization_id, p2)) => {
            match parse_i64_field(b, p2) {
                None => None,
                Some((ask_price, p3)) => {
                match parse_i64_field(b, p3) {
                    None => None,
                    Some((ask_qty, p4)) => {
                    match parse_i64_field(b, p4) {
                        None => None,
                        Some((bid_price, p5)) => {
                        match parse_i64_field(b, p5) {
                            None => None,
                            Some((bid_qty, p6)) => {
                            match parse_quote_status(b, p6) {
                                None => None,
                                Some((status, p7)) => {
                                match parse_i64_field(b, p7) {
                                    None => None,
                                    Some((timestamp, p8)) => {
                                    Some((QuoteMsgV { bond_id: bond_id, organization_id: organization_id, ask_price: ask_price as int, ask_qty: ask_qty as int, bid_price: bid_price as int, bid_qty: bid_qty as int, status: status, timestamp: timestamp as int }, p8))
                                    },
                                }
                                },
                            }
                            },
                        }
                        },
                    }
                    },
                }
                },
            }
            },
        }
        },
    }
}

fn read_quote_msg(b: &Vec<u8>, pos: &mut usize) -> (r: Option<QuoteMsg>)
    ensures
        match parse_quote_msg(b@, *old(pos) as int) {
            Some((m, p2)) => r is Some && r.unwrap()@ == m && *final(pos) as int == p2,
            None => r is None,
        },
{
    proof {
        assert(b.len() == b@.len());
    }
    let bond_id = match read_string(b, pos) {
        None => {
            return None;
        },
        Some(v) => v,
    };
    let organization_id = match read_string(b, pos) {
        None => {
            return None;
        },
        Some(v) => v,
    };
    let ask_price = match read_i64_field(b, pos) {
        None => {
            return None;
        },
        Some(v) => v,
    };
    let ask_qty = match read_i64_field(b, pos) {
        None => {
            return None;
        },
        Some(v) => v,
    };
    let bid_price = match read_i64_field(b, pos) {
        None => {
            return None;
        },
        Some(v) => v,
    };
    let bid_qty = match read_i64_field(b, pos) {
        None => {
            return None;
        },
        Some(v) => v,
    };
    let status = match read_quote_status(b, pos) {
        None => {
            return None;
        },
        Some(v) => v,
    };
    let timestamp = match read_i64_field(b, pos) {
        None => {
            return None;
        },
        Some(v) => v,
    };
    Some(QuoteMsg { bond_id: bond_id, organization_id: organization_id, ask_price: ask_price, ask_qty: ask_qty, bid_price: bid_price, bid_qty: bid_qty, status: status, timestamp: timestamp })
}

pub open spec fn parse_authorization_list(b: Seq<u8>, p: int, n: int) -> Option<(Seq<AuthorizationMsgV>, int)>
    decreases n,
{
    if n <= 0 {
        Some((Seq::empty(), p))
    } else {
        match parse_authorization_msg(b, p) {
            None => None,
            Some((m, p1)) => match parse_authorization_list(b, p1, n - 1) {
                None => None,
                Some((ms, p2)) => Some((seq![m] + ms, p2)),
            },
        }
    }
}

#[verifier::loop_isolation(false)]
fn read_authorization_list(b: &Vec<u8>, pos: &mut usize) -> (r: Option<Vec<AuthorizationMsg>>)
    ensures
        match parse_u16(b@, *old(pos) as int) {
            None => r is None,
            Some((cnt, q)) => match parse_authorization_list(b@, q, cnt) {
                Some((ms, p2)) => r is Some && r.unwrap().deep_view() == ms && *final(pos) as int == p2,
                None => r is None,
            },
        },
{
    proof {
        assert(b.len() == b@.len());
    }
    let count = match read_u16(b, pos) {
        None => {
            return None;
        },
        Some(v) => v,
    };
    let ghost q0 = *pos as int;
    let ghost total = count as int;
    let mut items: Vec<AuthorizationMsg> = Vec::new();
    let mut k: usize = 0;
    while k < count as usize
        invariant
            k <= total,
            match parse_authorization_list(b@, *pos as int, total - k) {
                Some((ms2, p2)) => parse_authorization_list(b@, q0, total) == Some(
                    (items.deep_view() + ms2, p2),
                ),
                None => parse_authorization_list(b@, q0, total) is None,
            },
        decreases count as usize - k,
    {
        let ghost pre_items = items.deep_view();
        let ghost pre_pos = *pos as int;
        let item = match read_authorization_msg(b, pos) {
            None => {
                return None;
            },
            Some(v) => v,
        };
        items.push(item);
        k += 1;
        proof {
            assert(items.deep_view() =~= pre_items.push(item@));
            match parse_authorization_list(b@, *pos as int, total - k) {
                Some((ms3, p3)) => {
                    assert(parse_authorization_list(b@, pre_pos, total - (k - 1)) == Some(
                        (seq![item@] + ms3, p3),
                    ));
                    assert(pre_items + (seq![item@] + ms3) =~= (pre_items.push(item@)) + ms3);
                },
                None => {},
            }
        }
    }
    proof {
        assert(parse_authorization_list(b@, *pos as int, 0) == Some((Seq::<AuthorizationMsgV>::empty(), *pos as int)));
        assert(items.deep_view() + Seq::<AuthorizationMsgV>::empty() =~= items.deep_view());
    }
    Some(items)
}

pub open spec fn parse_corporate_debt_rating_list(b: Seq<u8>, p: int, n: int) -> Option<(Seq<CorporateDebtRatingMsgV>, int)>
    decreases n,
{
    if n <= 0 {
        Some((Seq::empty(), p))
    } else {
        match parse_corporate_debt_rating_msg(b, p) {
            None => None,
            Some((m, p1)) => match parse_corporate_debt_rating_list(b, p1, n - 1) {
                None => None,
                Some((ms, p2)) => Some((seq![m] + ms, p2)),
            },
        }
    }
}

#[verifier::loop_isolation(false)]
fn read_corporate_debt_rating_list(b: &Vec<u8>, pos: &mut usize) -> (r: Option<Vec<CorporateDebtRatingMsg>>)
    ensures
        match parse_u16(b@, *old(pos) as int) {
            None => r is None,
            Some((cnt, q)) => match parse_corporate_debt_rating_list(b@, q, cnt) {
                Some((ms, p2)) => r is Some && r.unwrap().deep_view() == ms && *final(pos) as int == p2,
                None => r is None,
            },
        },
{
    proof {
        assert(b.len() == b@.len());
    }
    let count = match read_u16(b, pos) {
        None => {
            return None;
        },
        Some(v) => v,
    };
    let ghost q0 = *pos as int;
    let ghost total = count as int;
    let mut items: Vec<CorporateDebtRatingMsg> = Vec::new();
    let mut k: usize = 0;
    while k < count as usize
        invariant
            k <= total,
            match parse_corporate_debt_rating_list(b@, *pos as int, total - k) {
                Some((ms2, p2)) => parse_corporate_debt_rating_list(b@, q0, total) == Some(
                    (items.deep_view() + ms2, p2),
                ),
                None => parse_corporate_debt_rating_list(b@, q0, total) is None,
            },
        decreases count as usize - k,
    {
        let ghost pre_items = items.deep_view();
        let ghost pre_pos = *pos as int;
        let item = match read_corporate_debt_rating_msg(b, pos) {
            None => {
                return None;
            },
            Some(v) => v,
        };
        items.push(item);
        k += 1;
        proof {
            assert(items.deep_view() =~= pre_items.push(item@));
            match parse_corporate_debt_rating_list(b@, *pos as int, total - k) {
                Some((ms3, p3)) => {
                    assert(parse_corporate_debt_rating_list(b@, pre_pos, total - (k - 1)) == Some(
                        (seq![item@] + ms3, p3),
                    ));
                    assert(pre_items + (seq![item@] + ms3) =~= (pre_items.push(item@)) + ms3);
                },
                None => {},
            }
        }
    }
    proof {
        assert(parse_corporate_debt_rating_list(b@, *pos as int, 0) == Some((Seq::<CorporateDebtRatingMsgV>::empty(), *pos as int)));
        assert(items.deep_view() + Seq::<CorporateDebtRatingMsgV>::empty() =~= items.deep_view());
    }
    Some(items)
}

/// A raw byte field: a 16-bit little-endian length followed by that many
/// bytes.
pub open spec fn parse_bytes(b: Seq<u8>, p: int) -> Option<(Seq<u8>, int)> {
    match parse_u16(b, p) {
        None => None,
        Some((n, p1)) => {
            if p1 + n <= b.len() {
                Some((b.subrange(p1, p1 + n), p1 + n))
            } else {
                None
            }
        },
    }
}

#[verifier::loop_isolation(false)]
fn read_bytes(b: &Vec<u8>, pos: &mut usize) -> (r: Option<Vec<u8>>)
    ensures
        match parse_bytes(b@, *old(pos) as int) {
            Some((v, p2)) => r is Some && r.unwrap()@ == v && *final(pos) as int == p2,
            None => r is None,
        },
{
    let n = match read_u16(b, pos) {
        None => {
            return None;
        },
        Some(v) => v,
    };
    let n = n as usize;
    if b.len() - *pos < n {
        return None;
    }
    let base = *pos;
    let mut v: Vec<u8> = Vec::new();
    let mut i: usize = 0;
    while i < n
        invariant
            i <= n,
            v@ =~= b@.subrange(base as int, base + i as int),
        decreases n - i,
    {
        v.push(b[base + i]);
        i += 1;
        proof {
            assert(v@ =~= b@.subrange(base as int, base + i as int));
        }
    }
    *pos = base + n;
    Some(v)
}

/// The kind of a state mutation: a set of new value bytes, or an explicit
/// deletion.
#[derive(Clone, Copy, Debug, PartialEq, Eq, Structural)]
pub enum StateChangeKind {
    SET,
    DELETE,
}

/// One raw state mutation delivered with a block.
pub struct StateChange {
    pub address: String,
    pub value: Vec<u8>,
    pub kind: StateChangeKind,
}

pub struct StateChangeV {
    pub address: Seq<char>,
    pub value: Seq<u8>,
    pub kind: StateChangeKind,
}

impl View for StateChange {
    type V = StateChangeV;

    open spec fn view(&self) -> StateChangeV {
        StateChangeV { address: self.address@, value: self.value@, kind: self.kind }
    }
}

impl DeepView for StateChange {
    type V = StateChangeV;

    open spec fn deep_view(&self) -> StateChangeV {
        self.view()
    }
}

impl Clone for StateChange {
    fn clone(&self) -> (r: Self)
        ensures
            r@ == self@,
    {
        let mut value: Vec<u8> = Vec::new();
        let mut i: usize = 0;
        while i < self.value.len()
            invariant
                i <= self.value.len(),
                value@ =~= self.value@.take(i as int),
            decreases self.value.len() - i,
        {
            value.push(self.value[i]);
            i += 1;
            proof {
                assert(value@ =~= self.value@.take(i as int));
            }
        }
        proof {
            assert(self.value@.take(self.value@.len() as int) =~= self.value@);
        }
        StateChange { address: self.address.clone(), value, kind: self.kind }
    }
}

pub open spec fn parse_state_change_kind(b: Seq<u8>, p: int) -> Option<(StateChangeKind, int)> {
    match parse_u8(b, p) {
        None => None,
        Some((t, p1)) => {
            if t == 0 {
                Some((StateChangeKind::SET, p1))
            } else if t == 1 {
                Some((StateChangeKind::DELETE, p1))
            } else {
                None
            }
        },
    }
}

fn read_state_change_kind(b: &Vec<u8>, pos: &mut usize) -> (r: Option<StateChangeKind>)
    ensures
        match parse_state_change_kind(b@, *old(pos) as int) {
            Some((v, p2)) => r == Some(v) && *final(pos) as int == p2,
            None => r is None,
        },
{
    match read_u8(b, pos) {
        None => None,
        Some(t) => {
            if t == 0 {
                Some(StateChangeKind::SET)
            } else if t == 1 {
                Some(StateChangeKind::DELETE)
            } else {
                None
            }
        },
    }
}

pub open spec fn parse_state_change(b: Seq<u8>, p: int) -> Option<(StateChangeV, int)> {
    match parse_string(b, p) {
        None => None,
        Some((address, p1)) => {
            match parse_state_change_kind(b, p1) {
                None => None,
                Some((kind, p2)) => {
                    match parse_bytes(b, p2) {
                        None => None,
                        Some((value, p3)) => Some(
                            (StateChangeV { address, value, kind }, p3),
                        ),
                    }
                },
            }
        },
    }
}

fn read_state_change(b: &Vec<u8>, pos: &mut usize) -> (r: Option<StateChange>)
    ensures
        match parse_state_change(b@, *old(pos) as int) {
            Some((m, p2)) => r is Some && r.unwrap()@ == m && *final(pos) as int == p2,
            None => r is None,
        },
{
    proof {
        assert(b.len() == b@.len());
    }
    let address = match read_string(b, pos) {
        None => {
            return None;
        },
        Some(v) => v,
    };
    let kind = match read_state_change_kind(b, pos) {
        None => {
            return None;
        },
        Some(v) => v,
    };
    let value = match read_bytes(b, pos) {
        None => {
            return None;
        },
        Some(v) => v,
    };
    Some(StateChange { address, value, kind })
}

pub open spec fn parse_state_change_list(b: Seq<u8>, p: int, n: int) -> Option<(
    Seq<StateChangeV>,
    int,
)>
    decreases n,
{
    if n <= 0 {
        Some((Seq::empty(), p))
    } else {
        match parse_state_change(b, p) {
            None => None,
            Some((m, p1)) => match parse_state_change_list(b, p1, n - 1) {
                None => None,
                Some((ms, p2)) => Some((seq![m] + ms, p2)),
            },
        }
    }
}

/// The whole value of a state-delta event: a 16-bit count followed by
/// that many state changes, with nothing left over.
pub open spec fn parse_state_change_list_value(b: Seq<u8>) -> Option<Seq<StateChangeV>> {
    match parse_u16(b, 0) {
        None => None,
        Some((cnt, q)) => match parse_state_change_list(b, q, cnt) {
            None => None,
            Some((ms, p2)) => {
                if p2 == b.len() {
                    Some(ms)
                } else {
                    None
                }
            },
        },
    }
}

/// Decodes a state-delta event's data: succeeds exactly when the bytes
/// are one well-formed state change list.
#[verifier::loop_isolation(false)]
pub fn decode_state_change_list(b: &Vec<u8>) -> (r: Result<Vec<StateChange>, DecodeError>)
    ensures
        match r {
            Ok(ms) => parse_state_change_list_value(b@) == Some(ms.deep_view()),
            Err(_) => parse_state_change_list_value(b@) is None,
        },
{
    proof {
        assert(b.len() == b@.len());
    }
    let mut pos: usize = 0;
    let count = match read_u16(b, &mut pos) {
        None => {
            return Err(DecodeError);
        },
        Some(v) => v,
    };
    let ghost q0 = pos as int;
    let ghost total = count as int;
    let mut items: Vec<StateChange> = Vec::new();
    let mut k: usize = 0;
    while k < count as usize
        invariant
            k <= total,
            match parse_state_change_list(b@, pos as int, total - k) {
                Some((ms2, p2)) => parse_state_change_list(b@, q0, total) == Some(
                    (items.deep_view() + ms2, p2),
                ),
                None => parse_state_change_list(b@, q0, total) is None,
            },
        decreases count as usize - k,
    {
        let ghost pre_items = items.deep_view();
        let ghost pre_pos = pos as int;
        let item = match read_state_change(b, &mut pos) {
            None => {
                return Err(DecodeError);
            },
            Some(v) => v,
        };
        items.push(item);
        k += 1;
        proof {
            assert(items.deep_view() =~= pre_items.push(item@));
            match parse_state_change_list(b@, pos as int, total - k) {
                Some((ms3, p3)) => {
                    assert(parse_state_change_list(b@, pre_pos, total - (k - 1)) == Some(
                        (seq![item@] + ms3, p3),
                    ));
                    assert(pre_items + (seq![item@] + ms3) =~= (pre_items.push(item@)) + ms3);
                },
                None => {},
            }
        }
    }
    proof {
        assert(parse_state_change_list(b@, pos as int, 0) == Some(
            (Seq::<StateChangeV>::empty(), pos as int),
        ));
        assert(items.deep_view() + Seq::<StateChangeV>::empty() =~= items.deep_view());
    }
    if pos == b.len() {
        Ok(items)
    } else {
        Err(DecodeError)
    }
}


/// Decodes one organization record: succeeds exactly when the bytes are one
/// well-formed record with nothing left over.
pub fn decode_organization(bytes: &Vec<u8>) -> (r: Result<OrganizationMsg, DecodeError>)
    ensures
        match r {
            Ok(m) => parse_organization_msg(bytes@, 0) is Some && parse_organization_msg(bytes@, 0).unwrap().0
                == m@ && parse_organization_msg(bytes@, 0).unwrap().1 == bytes@.len(),
            Err(_) => parse_organization_msg(bytes@, 0) is None || parse_organization_msg(
                bytes@,
                0,
            ).unwrap().1 != bytes@.len(),
        },
{
    let mut pos: usize = 0;
    match read_organization_msg(bytes, &mut pos) {
        None => Err(DecodeError),
        Some(m) => {
            if pos == bytes.len() {
                Ok(m)
            } else {
                Err(DecodeError)
            }
        },
    }
}

/// Decodes one participant record: succeeds exactly when the bytes are one
/// well-formed record with nothing left over.
pub fn decode_participant(bytes: &Vec<u8>) -> (r: Result<ParticipantMsg, DecodeError>)
    ensures
        match r {
            Ok(m) => parse_participant_msg(bytes@, 0) is Some && parse_participant_msg(bytes@, 0).unwrap().0
                == m@ && parse_participant_msg(bytes@, 0).unwrap().1 == bytes@.len(),
            Err(_) => parse_participant_msg(bytes@, 0) is None || parse_participant_msg(
                bytes@,
                0,
            ).unwrap().1 != bytes@.len(),
        },
{
    let mut pos: usize = 0;
    match read_participant_msg(bytes, &mut pos) {
        None => Err(DecodeError),
        Some(m) => {
            if pos == bytes.len() {
                Ok(m)
            } else {
                Err(DecodeError)
            }
        },
    }
}

/// Decodes one settlement record: succeeds exactly when the bytes are one
/// well-formed record with nothing left over.
pub fn decode_settlement(bytes: &Vec<u8>) -> (r: Result<SettlementMsg, DecodeError>)
    ensures
        match r {
            Ok(m) => parse_settlement_msg(bytes@, 0) is Some && parse_settlement_msg(bytes@, 0).unwrap().0
                == m@ && parse_settlement_msg(bytes@, 0).unwrap().1 == bytes@.len(),
            Err(_) => parse_settlement_msg(bytes@, 0) is None || parse_settlement_msg(
                bytes@,
                0,
            ).unwrap().1 != bytes@.len(),
        },
{
    let mut pos: usize = 0;
    match read_settlement_msg(bytes, &mut pos) {
        None => Err(DecodeError),
        Some(m) => {
            if pos == bytes.len() {
                Ok(m)
            } else {
                Err(DecodeError)
            }
        },
    }
}

/// Decodes one holding record: succeeds exactly when the bytes are one
/// well-formed record with nothing left over.
pub fn decode_holding(bytes: &Vec<u8>) -> (r: Result<HoldingMsg, DecodeError>)
    ensures
        match r {
            Ok(m) => parse_holding_msg(bytes@, 0) is Some && parse_holding_msg(bytes@, 0).unwrap().0
                == m@ && parse_holding_msg(bytes@, 0).unwrap().1 == bytes@.len(),
            Err(_) => parse_holding_msg(bytes@, 0) is None || parse_holding_msg(
                bytes@,
                0,
            ).unwrap().1 != bytes@.len(),
        },
{
    let mut pos: usize = 0;
    match read_holding_msg(bytes, &mut pos) {
        None => Err(DecodeError),
        Some(m) => {
            if pos == bytes.len() {
                Ok(m)
            } else {
                Err(DecodeError)
            }
        },
    }
}

/// Decodes one order record: succeeds exactly when the bytes are one
/// well-formed record with nothing left over.
pub fn decode_order(bytes: &Vec<u8>) -> (r: Result<OrderMsg, DecodeError>)
    ensures
        match r {
            Ok(m) => parse_order_msg(bytes@, 0) is Some && parse_order_msg(bytes@, 0).unwrap().0
                == m@ && parse_order_msg(bytes@, 0).unwrap().1 == bytes@.len(),
            Err(_) => parse_order_msg(bytes@, 0) is None || parse_order_msg(
                bytes@,
                0,
            ).unwrap().1 != bytes@.len(),
        },
{
    let mut pos: usize = 0;
    match read_order_msg(bytes, &mut pos) {
        None => Err(DecodeError),
        Some(m) => {
            if pos == bytes.len() {
                Ok(m)
            } else {
                Err(DecodeError)
            }
        },
    }
}

/// Decodes one bond record: succeeds exactly when the bytes are one
/// well-formed record with nothing left over.
pub fn decode_bond(bytes: &Vec<u8>) -> (r: Result<BondMsg, DecodeError>)
    ensures
        match r {
            Ok(m) => parse_bond_msg(bytes@, 0) is Some && parse_bond_msg(bytes@, 0).unwrap().0
                == m@ && parse_bond_msg(bytes@, 0).unwrap().1 == bytes@.len(),
            Err(_) => parse_bond_msg(bytes@, 0) is None || parse_bond_msg(
                bytes@,
                0,
            ).unwrap().1 != bytes@.len(),
        },
{
    let mut pos: usize = 0;
    match read_bond_msg(bytes, &mut pos) {
        None => Err(DecodeError),
        Some(m) => {
            if pos == bytes.len() {
                Ok(m)
            } else {
                Err(DecodeError)
            }
        },
    }
}

/// Decodes one receipt record: succeeds exactly when the bytes are one
/// well-formed record with nothing left over.
pub fn decode_receipt(bytes: &Vec<u8>) -> (r: Result<ReceiptMsg, DecodeError>)
    ensures
        match r {
            Ok(m) => parse_receipt_msg(bytes@, 0) is Some && parse_receipt_msg(bytes@, 0).unwrap().0
                == m@ && parse_receipt_msg(bytes@, 0).unwrap().1 == bytes@.len(),
            Err(_) => parse_receipt_msg(bytes@, 0) is None || parse_receipt_msg(
                bytes@,
                0,
            ).unwrap().1 != bytes@.len(),
        },
{
    let mut pos: usize = 0;
    match read_receipt_msg(bytes, &mut pos) {
        None => Err(DecodeError),
        Some(m) => {
            if pos == bytes.len() {
                Ok(m)
            } else {
                Err(DecodeError)
            }
        },
    }
}

/// Decodes one quote record: succeeds exactly when the bytes are one
/// well-formed record with nothing left over.
pub fn decode_quote(bytes: &Vec<u8>) -> (r: Result<QuoteMsg, DecodeError>)
    ensures
        match r {
            Ok(m) => parse_quote_msg(bytes@, 0) is Some && parse_quote_msg(bytes@, 0).unwrap().0
                == m@ && parse_quote_msg(bytes@, 0).unwrap().1 == bytes@.len(),
            Err(_) => parse_quote_msg(bytes@, 0) is None || parse_quote_msg(
                bytes@,
                0,
            ).unwrap().1 != bytes@.len(),
        },
{
    let mut pos: usize = 0;
    match read_quote_msg(bytes, &mut pos) {
        None => Err(DecodeError),
        Some(m) => {
            if pos == bytes.len() {
                Ok(m)
            } else {
                Err(DecodeError)
            }
        },
    }
}

} // verus!
