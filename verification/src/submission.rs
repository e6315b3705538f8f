//! Building and signing exchange order submissions from order requests, and
//! reading the created order back from an accepted submission.  The signer is
//! the caller's (the exchange SDK's `sign`); sending is left to the caller.
use crate::auth::{hex_key_error, is_key_hex, key_bytes_of, private_key_bytes};
use crate::rest::side_from_text;
use crate::api::{api_side_name, ApiOrderSide, ApiOrderType, ApiSelfTradePrevention, ApiTimeInForce};
use crate::decimal::{decimal_text, rd_checked_mul, truncate_toward_zero, Decimal};
use crate::error::CoreError;
use crate::order::{CancelAck, CancelRequest, Order, OrderRequest, OrderStatus, OrderType, Side, TimeInForce};
use crate::text::{int_text, join2, owned, u64_text};
use crate::time::{now, Timestamp};
use vstd::prelude::*;

verus! {

/// Fields of a submission that its signature covers.
#[derive(Debug)]
pub struct SignedFields {
    pub symbol: String,
    pub account_address: String,
    pub price_e9: String,
    pub quantity_e9: String,
    pub side: ApiOrderSide,
    pub leverage_e9: String,
    pub is_isolated: bool,
    pub salt: String,
    pub ids_id: String,
    pub expires_at_millis: i64,
    pub signed_at_millis: i64,
}

/// An order submission, before it is signed.
#[derive(Debug)]
pub struct CreateOrderSubmission {
    pub signed_fields: SignedFields,
    pub client_order_id: Option<String>,
    pub order_type: ApiOrderType,
    pub reduce_only: bool,
    pub post_only: Option<bool>,
    pub time_in_force: Option<ApiTimeInForce>,
    pub trigger_price_e9: Option<String>,
    pub self_trade_prevention: Option<ApiSelfTradePrevention>,
}

/// How long a submission stays valid: six minutes.
pub const SUBMISSION_LIFETIME_SECS: i64 = 360i64;

pub open spec fn api_side(side: Side) -> ApiOrderSide {
    match side {
        Side::Buy => ApiOrderSide::Long,
        Side::Sell => ApiOrderSide::Short,
    }
}

/// Good-til-cancel is the exchange's good-til-time.
pub open spec fn api_time_in_force(tif: TimeInForce) -> ApiTimeInForce {
    match tif {
        TimeInForce::Gtc => ApiTimeInForce::Gtt,
        TimeInForce::Ioc => ApiTimeInForce::Ioc,
        TimeInForce::Fok => ApiTimeInForce::Fok,
    }
}

pub open spec fn api_order_type(t: OrderType) -> ApiOrderType {
    match t {
        OrderType::Limit => ApiOrderType::Limit,
        OrderType::Market => ApiOrderType::Market,
    }
}

pub fn convert_side(side: Side) -> (r: ApiOrderSide)
    ensures
        r == api_side(side),
{
    match side {
        Side::Buy => ApiOrderSide::Long,
        Side::Sell => ApiOrderSide::Short,
    }
}

pub fn convert_tif(tif: TimeInForce) -> (r: ApiTimeInForce)
    ensures
        r == api_time_in_force(tif),
{
    match tif {
        TimeInForce::Gtc => ApiTimeInForce::Gtt,
        TimeInForce::Ioc => ApiTimeInForce::Ioc,
        TimeInForce::Fok => ApiTimeInForce::Fok,
    }
}

pub fn convert_order_type(t: OrderType) -> (r: ApiOrderType)
    ensures
        r == api_order_type(t),
{
    match t {
        OrderType::Limit => ApiOrderType::Limit,
        OrderType::Market => ApiOrderType::Market,
    }
}

/// `value * 10^9` as `rust_decimal` computes it, when it does not overflow.
pub open spec fn e9_scaled(value: Decimal) -> Option<(int, int)> {
    rd_checked_mul(value.mant(), value.exp() as int, 1_000_000_000, 0)
}

/// The e9 text of a scaled value: its integer part, in decimal, with a `-`
/// where the value scaled was negative (so `-0` for a negative value that
/// truncates to zero, as `rust_decimal` prints it).
pub open spec fn e9_text_of(scaled: (int, int), negative: bool) -> Seq<char> {
    decimal_text(truncate_toward_zero(scaled.0, scaled.1 as nat), 0, negative)
}

/// `value * 10^9`, truncated to an integer, as decimal text.
pub fn e9_text(value: Decimal) -> (s: String)
    requires
        e9_scaled(value) is Some,
    ensures
        s@ == e9_text_of(e9_scaled(value)->0, value.mant() < 0),
{
    let one_e9 = Decimal::from_u64(1_000_000_000u64);
    let scaled = value.mul(&one_e9);
    proof {
        scaled.lemma_sign();
    }
    let whole = scaled.trunc();
    whole.to_text()
}

/// The leverage in e9 units, as decimal text.
pub fn leverage_e9_text(leverage: u32) -> (s: String)
    ensures
        s@ == int_text(leverage * 1_000_000_000),
{
    u64_text(leverage as u64 * 1_000_000_000u64)
}

pub open spec fn msg_quantity() -> Seq<char> {
    "Order size must be positive"@
}

pub open spec fn msg_price() -> Seq<char> {
    "Limit order requires price"@
}

pub open spec fn msg_post_only() -> Seq<char> {
    "post_only requires GTC time_in_force"@
}

/// The error a request is refused with, if any: a size that is not positive,
/// then a limit order without a price, then a post-only order that is not
/// good-til-cancel.
pub open spec fn submission_error(request: OrderRequest) -> Option<CoreError> {
    if request.size.mant() <= 0 {
        Some(CoreError::InvalidQuantity(arbitrary()))
    } else if request.order_type == OrderType::Limit && request.price is None {
        Some(CoreError::InvalidPrice(arbitrary()))
    } else if request.post_only && request.time_in_force != TimeInForce::Gtc {
        Some(CoreError::InvalidRequest(arbitrary()))
    } else {
        None
    }
}

/// `e` is the refusal `submission_error` names, with its message.
pub open spec fn is_submission_error(e: CoreError, request: OrderRequest) -> bool {
    match submission_error(request) {
        Some(CoreError::InvalidQuantity(_)) => e matches CoreError::InvalidQuantity(m) && m@
            == msg_quantity(),
        Some(CoreError::InvalidPrice(_)) => e matches CoreError::InvalidPrice(m) && m@ == msg_price(),
        Some(CoreError::InvalidRequest(_)) => e matches CoreError::InvalidRequest(m) && m@
            == msg_post_only(),
        _ => false,
    }
}

/// Checks a request before it is turned into a submission.
pub fn validate_submission(request: &OrderRequest) -> (r: Result<(), CoreError>)
    ensures
        r is Ok <==> submission_error(*request) is None,
        r is Err ==> is_submission_error(r->Err_0, *request),
{
    if request.size.le(&Decimal::zero()) {
        proof {
            reveal_with_fuel(crate::decimal::pow10, 1);
        }
        return Err(CoreError::InvalidQuantity(owned("Order size must be positive")));
    }
    if request.order_type == OrderType::Limit && request.price.is_none() {
        return Err(CoreError::InvalidPrice(owned("Limit order requires price")));
    }
    if request.post_only && request.time_in_force != TimeInForce::Gtc {
        return Err(CoreError::InvalidRequest(owned("post_only requires GTC time_in_force")));
    }
    Ok(())
}

/// The price and size of the request scale to e9 without overflow.
pub open spec fn e9_defined(request: OrderRequest) -> bool {
    &&& e9_scaled(request.size) is Some
    &&& request.price is Some ==> e9_scaled(request.price->0) is Some
}

/// The submission carries the request: market, price and size in e9 text (a
/// price of `0` for none), side, type, time-in-force, flags and client id,
/// for the given account, leverage and identity service, cross margin, with
/// maker-side self-trade prevention and no trigger price.
pub open spec fn submission_carries(
    sub: CreateOrderSubmission,
    request: OrderRequest,
    account_address: Seq<char>,
    ids_id: Seq<char>,
    leverage_e9: Seq<char>,
) -> bool {
    let f = sub.signed_fields;
    &&& f.symbol@ == request.market@
    &&& f.account_address@ == account_address
    &&& f.price_e9@ == (match request.price {
        Some(p) => e9_text_of(e9_scaled(p)->0, p.mant() < 0),
        None => "0"@,
    })
    &&& f.quantity_e9@ == e9_text_of(e9_scaled(request.size)->0, request.size.mant() < 0)
    &&& f.side == api_side(request.side)
    &&& f.leverage_e9@ == leverage_e9
    &&& !f.is_isolated
    &&& f.ids_id@ == ids_id
    &&& sub.client_order_id == request.client_order_id
    &&& sub.order_type == api_order_type(request.order_type)
    &&& sub.reduce_only == request.reduce_only
    &&& sub.post_only == (if request.post_only { Some(true) } else { None })
    &&& sub.time_in_force == Some(api_time_in_force(request.time_in_force))
    &&& sub.trigger_price_e9 is None
    &&& sub.self_trade_prevention == Some(ApiSelfTradePrevention::Maker)
}

/// The submission for a valid request, with the given salt and validity
/// window.
pub fn submission_fields(
    request: &OrderRequest,
    account_address: &str,
    ids_id: &str,
    leverage_e9: &str,
    salt: u64,
    expires_at_millis: i64,
    signed_at_millis: i64,
) -> (r: Result<CreateOrderSubmission, CoreError>)
    requires
        submission_error(*request) is None ==> e9_defined(*request),
    ensures
        r is Ok <==> submission_error(*request) is None,
        r is Err ==> is_submission_error(r->Err_0, *request),
        r is Ok ==> submission_carries(r->Ok_0, *request, account_address@, ids_id@, leverage_e9@),
        r is Ok ==> r->Ok_0.signed_fields.salt@ == int_text(salt as int),
        r is Ok ==> r->Ok_0.signed_fields.expires_at_millis == expires_at_millis,
        r is Ok ==> r->Ok_0.signed_fields.signed_at_millis == signed_at_millis,
{
    match validate_submission(request) {
        Err(e) => return Err(e),
        Ok(()) => {},
    }
    let price_e9 = match request.price {
        Some(p) => e9_text(p),
        None => owned("0"),
    };
    let signed_fields = SignedFields {
        symbol: request.market.clone(),
        account_address: owned(account_address),
        price_e9,
        quantity_e9: e9_text(request.size),
        side: convert_side(request.side),
        leverage_e9: owned(leverage_e9),
        is_isolated: false,
        salt: u64_text(salt),
        ids_id: owned(ids_id),
        expires_at_millis,
        signed_at_millis,
    };
    Ok(
        CreateOrderSubmission {
            signed_fields,
            client_order_id: crate::order::clone_opt_string(&request.client_order_id),
            order_type: convert_order_type(request.order_type),
            reduce_only: request.reduce_only,
            post_only: if request.post_only {
                Some(true)
            } else {
                None
            },
            time_in_force: Some(convert_tif(request.time_in_force)),
            trigger_price_e9: None,
            self_trade_prevention: Some(ApiSelfTradePrevention::Maker),
        },
    )
}

/// A random `u64` (`rand::random`).
#[verifier::external_body]
fn random_salt() -> u64 {
    rand::random::<u64>()
}

/// `price * 10^9` (for a price) and `size * 10^9` do not overflow.
fn e9_fits(request: &OrderRequest) -> (b: bool)
    ensures
        b == e9_defined(*request),
{
    let one_e9 = Decimal::from_u64(1_000_000_000u64);
    let size_ok = request.size.checked_mul(&one_e9).is_some();
    let price_ok = match request.price {
        Some(p) => p.checked_mul(&one_e9).is_some(),
        None => true,
    };
    size_ok && price_ok
}

/// Builds the submission for a request: a fresh random salt, signed now and
/// valid for six minutes.  `None` where scaling the price or size to e9
/// overflows, on which the submission cannot be built.
pub fn build_order_request(
    request: &OrderRequest,
    account_address: &str,
    ids_id: &str,
    leverage_e9: &str,
) -> (r: Option<Result<CreateOrderSubmission, CoreError>>)
    ensures
        r is None <==> (submission_error(*request) is None && !e9_defined(*request)),
        r matches Some(Err(e)) ==> is_submission_error(e, *request),
        r matches Some(res) ==> (res is Ok <==> submission_error(*request) is None),
        r matches Some(Ok(sub)) ==> submission_carries(
            sub,
            *request,
            account_address@,
            ids_id@,
            leverage_e9@,
        ),
        r matches Some(Ok(sub)) ==> fresh_window(sub.signed_fields),
{
    match validate_submission(request) {
        Err(e) => return Some(Err(e)),
        Ok(()) => {},
    }
    if !e9_fits(request) {
        return None;
    }
    let salt = random_salt();
    let issued = now();
    let expires_at = issued.plus_seconds(SUBMISSION_LIFETIME_SECS);
    let signed_at = now();
    let r = submission_fields(
        request,
        account_address,
        ids_id,
        leverage_e9,
        salt,
        expires_at.millis(),
        signed_at.millis(),
    );
    proof {
        if r is Ok {
            assert(r->Ok_0.signed_fields.salt@ == int_text(salt as int));
            assert(issued.in_range() && signed_at.in_range()
                && r->Ok_0.signed_fields.expires_at_millis == issued.spec_millis()
                + SUBMISSION_LIFETIME_SECS * 1000
                && r->Ok_0.signed_fields.signed_at_millis == signed_at.spec_millis());
        }
    }
    Some(r)
}

/// The signing error: `Failed to sign order: ` and the signer's text.
pub open spec fn is_signing_error(e: CoreError, text: Seq<char>) -> bool {
    e matches CoreError::ApiError(m) && m@ == "Failed to sign order: "@ + text
}

/// The key error: `Invalid private key: ` and the decoder's text.
pub open spec fn is_key_error(e: CoreError, private_key_hex: Seq<char>) -> bool {
    e matches CoreError::AuthError(m) && m@ == "Invalid private key: "@ + hex_key_error(private_key_hex)
}

/// Builds the submission for a request, as `build_order_request` does, and
/// signs it with the private key that `private_key_hex` spells, by `sign`
/// (the exchange's Ed25519 signature of the request).  Refusals come in this
/// order: the request's own checks, then (where scaling to e9 overflows)
/// `None`, then a key that is not 64 hexadecimal digits, then a signing
/// error.  The signature returned is what `sign` gave for exactly the
/// submission returned and the key's 32 bytes.
pub fn signed_submission<F: Fn(&CreateOrderSubmission, [u8; 32]) -> Result<String, String>>(
    request: &OrderRequest,
    account_address: &str,
    ids_id: &str,
    leverage_e9: &str,
    private_key_hex: &str,
    sign: F,
) -> (r: Option<Result<(CreateOrderSubmission, String), CoreError>>)
    requires
        forall|sub: &CreateOrderSubmission, key: [u8; 32]| call_requires(sign, (sub, key)),
    ensures
        r is None <==> (submission_error(*request) is None && !e9_defined(*request)),
        r matches Some(Ok(_)) ==> submission_error(*request) is None && is_key_hex(private_key_hex@),
        r matches Some(Err(e)) ==> (match submission_error(*request) {
            Some(_) => is_submission_error(e, *request),
            None => if !is_key_hex(private_key_hex@) {
                is_key_error(e, private_key_hex@)
            } else {
                exists|sub: CreateOrderSubmission, key: [u8; 32], t: String|
                    key_bytes_of(private_key_hex@, key) && call_ensures(
                        sign,
                        (&sub, key),
                        Err::<String, String>(t),
                    ) && is_signing_error(e, t@)
            },
        }),
        (submission_error(*request) is None && !is_key_hex(private_key_hex@) && e9_defined(*request))
            ==> (r matches Some(Err(e)) && is_key_error(e, private_key_hex@)),
        r matches Some(Ok((sub, sig))) ==> (submission_carries(
            sub,
            *request,
            account_address@,
            ids_id@,
            leverage_e9@,
        ) && fresh_window(sub.signed_fields) && exists|key: [u8; 32]|
            key_bytes_of(private_key_hex@, key) && call_ensures(
                sign,
                (&sub, key),
                Ok::<String, String>(sig),
            )),
{
    let sub = match build_order_request(request, account_address, ids_id, leverage_e9) {
        None => return None,
        Some(Err(e)) => return Some(Err(e)),
        Some(Ok(sub)) => sub,
    };
    let key = match private_key_bytes(private_key_hex) {
        Ok(k) => k,
        Err(e) => return Some(Err(CoreError::AuthError(join2("Invalid private key: ", e.as_str())))),
    };
    match sign(&sub, key) {
        Ok(signature) => Some(Ok((sub, signature))),
        Err(t) => Some(Err(CoreError::ApiError(join2("Failed to sign order: ", t.as_str())))),
    }
}

/// The salt is the decimal text of some `u64`, and the submission expires six
/// minutes after one instant that `chrono` represents and is signed at one
/// such instant (read from the clock in turn).
pub open spec fn fresh_window(f: SignedFields) -> bool {
    &&& exists|n: u64| f.salt@ == int_text(n as int)
    &&& exists|t: Timestamp|
        t.in_range() && f.expires_at_millis == t.spec_millis() + SUBMISSION_LIFETIME_SECS * 1000
    &&& exists|t: Timestamp| t.in_range() && f.signed_at_millis == t.spec_millis()
}

pub open spec fn msg_side_unspecified() -> Seq<char> {
    "OrderSide is unspecified; check raw capture for signed_fields.side"@
}

pub open spec fn msg_unknown_type() -> Seq<char> {
    "Unknown order type in signed request; check raw capture for type"@
}

pub open spec fn msg_tif_missing() -> Seq<char> {
    "time_in_force is missing; check raw capture for time_in_force"@
}

pub open spec fn msg_unknown_tif() -> Seq<char> {
    "Unknown time_in_force in signed request; check raw capture for time_in_force"@
}

/// Reading a submission back: the first of these that fails names the error.
pub open spec fn readback_error(sub: CreateOrderSubmission) -> Option<Seq<char>> {
    if sub.signed_fields.side == ApiOrderSide::Unspecified {
        Some(msg_side_unspecified())
    } else if !(sub.order_type == ApiOrderType::Limit || sub.order_type == ApiOrderType::Market) {
        Some(msg_unknown_type())
    } else if sub.time_in_force is None {
        Some(msg_tif_missing())
    } else if sub.time_in_force == Some(ApiTimeInForce::Unspecified) {
        Some(msg_unknown_tif())
    } else {
        None
    }
}

pub open spec fn side_of(s: ApiOrderSide) -> Side {
    if s == ApiOrderSide::Short {
        Side::Sell
    } else {
        Side::Buy
    }
}

pub open spec fn order_type_of(t: ApiOrderType) -> OrderType {
    if t == ApiOrderType::Market {
        OrderType::Market
    } else {
        OrderType::Limit
    }
}

pub open spec fn time_in_force_of(t: ApiTimeInForce) -> TimeInForce {
    match t {
        ApiTimeInForce::Ioc => TimeInForce::Ioc,
        ApiTimeInForce::Fok => TimeInForce::Fok,
        _ => TimeInForce::Gtc,
    }
}

/// The order an accepted submission created: open, with the exchange's hash,
/// the submission's market, side, type, time-in-force, flags and client id,
/// and no price and zero sizes (the submission carries them only in e9 text).
pub open spec fn order_created_by(o: Order, sub: CreateOrderSubmission, order_hash: Seq<char>) -> bool {
    &&& o.order_hash@ == order_hash
    &&& o.market@ == sub.signed_fields.symbol@
    &&& o.side == side_of(sub.signed_fields.side)
    &&& o.order_type == order_type_of(sub.order_type)
    &&& o.price is None
    &&& o.size.mant() == 0
    &&& o.filled_size.mant() == 0
    &&& o.status == OrderStatus::Open
    &&& o.time_in_force == time_in_force_of(sub.time_in_force->0)
    &&& o.reduce_only == sub.reduce_only
    &&& o.post_only == (sub.post_only == Some(true))
    &&& o.client_order_id == sub.client_order_id
}

/// The order an accepted submission created, stamped with the current time.
pub fn order_from_submission(sub: CreateOrderSubmission, order_hash: String) -> (r: Result<
    Order,
    CoreError,
>)
    ensures
        r is Ok <==> readback_error(sub) is None,
        r is Err ==> (r->Err_0 matches CoreError::InvalidRequest(m) && m@ == readback_error(sub)->0),
        r is Ok ==> order_created_by(r->Ok_0, sub, order_hash@),
        r is Ok ==> r->Ok_0.created_at.in_range() && r->Ok_0.updated_at.in_range(),
{
    let side = match sub.signed_fields.side {
        ApiOrderSide::Long => Side::Buy,
        ApiOrderSide::Short => Side::Sell,
        ApiOrderSide::Unspecified => {
            return Err(
                CoreError::InvalidRequest(
                    owned("OrderSide is unspecified; check raw capture for signed_fields.side"),
                ),
            );
        },
    };
    let order_type = match sub.order_type {
        ApiOrderType::Limit => OrderType::Limit,
        ApiOrderType::Market => OrderType::Market,
        _ => {
            return Err(
                CoreError::InvalidRequest(
                    owned("Unknown order type in signed request; check raw capture for type"),
                ),
            );
        },
    };
    let tif = match sub.time_in_force {
        Some(t) => t,
        None => {
            return Err(
                CoreError::InvalidRequest(
                    owned("time_in_force is missing; check raw capture for time_in_force"),
                ),
            );
        },
    };
    let time_in_force = match tif {
        ApiTimeInForce::Gtt => TimeInForce::Gtc,
        ApiTimeInForce::Ioc => TimeInForce::Ioc,
        ApiTimeInForce::Fok => TimeInForce::Fok,
        ApiTimeInForce::Unspecified => {
            return Err(
                CoreError::InvalidRequest(
                    owned(
                        "Unknown time_in_force in signed request; check raw capture for time_in_force",
                    ),
                ),
            );
        },
    };
    let post_only = match sub.post_only {
        Some(b) => b,
        None => false,
    };
    Ok(
        Order {
            order_hash,
            market: sub.signed_fields.symbol,
            side,
            order_type,
            price: None,
            size: Decimal::zero(),
            filled_size: Decimal::zero(),
            status: OrderStatus::Open,
            time_in_force,
            reduce_only: sub.reduce_only,
            post_only,
            client_order_id: sub.client_order_id,
            created_at: now(),
            updated_at: now(),
        },
    )
}

/// What a cancel request asks of the exchange: the market, and the hashes of
/// the orders to cancel (`None`: all of the market's orders).
pub fn cancel_target(request: &CancelRequest) -> (r: (String, Option<Vec<String>>))
    ensures
        match *request {
            CancelRequest::Single { market, order_hash } => r.0 == market && r.1 is Some
                && r.1->0@ == seq![order_hash],
            CancelRequest::Batch { market, order_hashes } => r.0 == market && r.1 is Some
                && r.1->0@ == order_hashes@,
            CancelRequest::AllForMarket { market } => r.0 == market && r.1 is None,
        },
{
    match request {
        CancelRequest::Single { market, order_hash } => {
            let mut v: Vec<String> = Vec::new();
            v.push(order_hash.clone());
            assert(v@ == seq![*order_hash]);
            (market.clone(), Some(v))
        },
        CancelRequest::Batch { market, order_hashes } => (market.clone(), Some(crate::order::clone_strings(order_hashes))),
        CancelRequest::AllForMarket { market } => (market.clone(), None),
    }
}

/// The acknowledgement of an accepted cancel request: the same market and
/// orders.
pub fn cancel_ack(request: CancelRequest) -> (r: CancelAck)
    ensures
        match request {
            CancelRequest::Single { market, order_hash } => r == CancelAck::Single {
                market,
                order_hash,
            },
            CancelRequest::Batch { market, order_hashes } => r == CancelAck::Batch {
                market,
                order_hashes,
            },
            CancelRequest::AllForMarket { market } => r == CancelAck::AllForMarket { market },
        },
{
    match request {
        CancelRequest::Single { market, order_hash } => CancelAck::Single { market, order_hash },
        CancelRequest::Batch { market, order_hashes } => CancelAck::Batch { market, order_hashes },
        CancelRequest::AllForMarket { market } => CancelAck::AllForMarket { market },
    }
}

/// Reading back the order that a submission of a valid request created gives
/// the request's market, side, type, time-in-force (good-til-cancel survives
/// its mapping to good-til-time), flags and client id.
pub proof fn lemma_readback_recovers_request(
    sub: CreateOrderSubmission,
    request: OrderRequest,
    account_address: Seq<char>,
    ids_id: Seq<char>,
    leverage_e9: Seq<char>,
    o: Order,
    order_hash: Seq<char>,
)
    requires
        submission_carries(sub, request, account_address, ids_id, leverage_e9),
        order_created_by(o, sub, order_hash),
    ensures
        readback_error(sub) is None,
        o.market@ == request.market@,
        o.side == request.side,
        o.order_type == request.order_type,
        o.time_in_force == request.time_in_force,
        o.reduce_only == request.reduce_only,
        o.post_only == request.post_only,
        o.client_order_id == request.client_order_id,
        o.status == OrderStatus::Open,
{
}

/// A request that a submission can be built for also passes the execution
/// service's own checks.
pub proof fn lemma_submittable_requests_pass_validation(request: OrderRequest)
    requires
        submission_error(request) is None,
    ensures
        request.size.mant() > 0,
        !(request.order_type == OrderType::Limit && request.price is None),
{
}

/// A REST order's side reads as a buy exactly for `LONG` and as a sell
/// exactly for `SHORT`, so the side a submission names reads back as the
/// side it was built from.
pub proof fn lemma_rest_sides(t: Seq<char>, side: Side)
    ensures
        side_from_text(t) == Some(Side::Buy) <==> t == "LONG"@,
        side_from_text(t) == Some(Side::Sell) <==> t == "SHORT"@,
        side_from_text(api_side_name(api_side(side))) == Some(side),
{
    reveal_strlit("LONG");
    reveal_strlit("SHORT");
    assert("LONG"@ != "SHORT"@) by {
        assert("LONG"@[0] != "SHORT"@[0]);
    }
}

} // verus!
