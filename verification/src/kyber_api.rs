//! Kyber Aggregator API data and the computations around it: query
//! resolution, request building, response checking and the remaining maker
//! amount of partially filled orders.

use crate::address::{Address, H256};
use crate::text::str_eq;
use crate::uint::{base128, modulus256, u256_div, u256_mul, U256};
use vstd::arithmetic::div_mod::{lemma_div_is_ordered, lemma_div_multiples_vanish};
use vstd::prelude::*;

verus! {

/// Whether a quote fixes the input or the output amount.
#[derive(Clone, Copy, Debug, PartialEq, Eq, PartialOrd, Ord, Hash)]
pub enum TradeType {
    ExactIn,
    ExactOut,
}

/// Extra pool data of a route step. `price_limit` holds the JSON text of the
/// value that the API sent.
#[derive(Clone, Debug, Default, PartialEq, Eq)]
pub struct KyberPoolExtra {
    pub swap_fee: Option<u64>,
    pub price_limit: Option<String>,
    pub buffer_in: Option<String>,
    pub buffer_out: Option<String>,
    pub block_number: Option<u64>,
}

/// Extra pool state of a route step.
#[derive(Clone, Debug, Default, PartialEq, Eq)]
pub struct KyberExtra {
    pub next_state_tick_current: Option<i32>,
    pub _cs: Option<String>,
    pub _ts: Option<String>,
    pub ri: Option<String>,
    pub n_sqrt_rx96: Option<String>,
    pub n_t: Option<i32>,
}

/// One swap through one pool.
#[derive(Clone, Debug, PartialEq, Eq)]
pub struct KyberRouteStep {
    pub pool: String,
    pub token_in: String,
    pub token_out: String,
    pub swap_amount: String,
    pub amount_out: String,
    pub exchange: String,
    pub pool_type: String,
    pub pool_extra: KyberPoolExtra,
    pub extra: KyberExtra,
}

/// A fee charged on top of the swap.
#[derive(Clone, Debug, PartialEq, Eq)]
pub struct KyberExtraFee {
    pub fee_amount: String,
    pub charge_fee_by: String,
    pub is_in_bps: bool,
    pub fee_receiver: String,
}

/// The route that the API found, with its amounts and costs.
#[derive(Clone, Debug, PartialEq, Eq)]
pub struct KyberRouteSummary {
    pub token_in: String,
    pub amount_in: String,
    pub amount_in_usd: String,
    pub token_out: String,
    pub amount_out: String,
    pub amount_out_usd: String,
    pub gas: String,
    pub gas_price: String,
    pub gas_usd: String,
    pub l1_fee_usd: String,
    pub extra_fee: KyberExtraFee,
    pub route: Vec<Vec<KyberRouteStep>>,
    pub route_id: String,
    pub checksum: String,
    pub timestamp: u64,
}

/// How much the output changed against the quote. The API's percentage is a
/// floating-point number and is not held here.
#[derive(Clone, Debug, PartialEq, Eq)]
pub struct OutputChange {
    pub amount: String,
    pub level: i32,
}

/// The payload of a route build response.
#[derive(Clone, Debug, PartialEq, Eq)]
pub struct KyberRouteBuildResponseData {
    pub amount_in: String,
    pub amount_in_usd: String,
    pub amount_out: String,
    pub amount_out_usd: String,
    pub gas: String,
    pub gas_usd: String,
    pub additional_cost_usd: String,
    pub additional_cost_message: String,
    pub output_change: OutputChange,
    pub data: String,
    pub router_address: String,
    pub transaction_value: String,
}

/// A route build response.
#[derive(Clone, Debug, PartialEq, Eq)]
pub struct KyberRouteBuildResponse {
    pub code: i32,
    pub message: String,
    pub data: KyberRouteBuildResponseData,
    pub request_id: Option<String>,
}

/// A routing response.
#[derive(Clone, Debug, PartialEq, Eq)]
pub struct KyberRouteResponse {
    pub code: i32,
    pub message: String,
    pub data: KyberRouteData,
    pub request_id: String,
}

/// The payload of a routing response.
#[derive(Clone, Debug, PartialEq, Eq)]
pub struct KyberRouteData {
    pub route_summary: KyberRouteSummary,
    pub router_address: String,
}

/// The query of a routing request.
#[derive(Clone, Debug, PartialEq, Eq)]
pub struct KyberRoutingApiQuery {
    pub token_in: String,
    pub token_out: String,
    pub amount_in: String,
}

/// The body of a route build request.
#[derive(Clone, Debug, PartialEq, Eq)]
pub struct KyberBuildRequest {
    pub route_summary: KyberRouteSummary,
    pub sender: String,
    pub recipient: String,
    pub deadline: u64,
    pub slippage_tolerance: u64,
}

/// Metadata of a 0x order. `created_at` is in seconds since the Unix epoch.
#[derive(Clone, Debug, PartialEq, Eq)]
pub struct OrderMetadata {
    pub created_at: i64,
    pub order_hash: Vec<u8>,
    pub remaining_fillable_taker_amount: u128,
}

/// The signature of a 0x order.
#[derive(Clone, Copy, Debug, PartialEq, Eq)]
pub struct ZeroExSignature {
    pub r: H256,
    pub s: H256,
    pub v: u8,
    pub signature_type: u8,
}

/// A 0x limit order.
#[derive(Clone, Debug, PartialEq, Eq)]
pub struct Order {
    /// The ID of the Ethereum chain where the `verifying_contract` is located.
    pub chain_id: u64,
    /// Timestamp in seconds of when the order expires.
    pub expiry: u64,
    /// The address of the entity that will receive any fees of the order.
    pub fee_recipient: Address,
    /// The address of the party that creates the order.
    pub maker: Address,
    /// The amount of `maker_token` being sold by the maker.
    pub maker_amount: u128,
    /// The address of the ERC20 token the maker is selling to the taker.
    pub maker_token: Address,
    /// The staking pool to attribute the 0x protocol fee from this order.
    pub pool: H256,
    /// A value that can be used to guarantee order uniqueness.
    pub salt: U256,
    /// The address allowed to send the fill, if any.
    pub sender: Address,
    /// The signature of the signed order.
    pub signature: ZeroExSignature,
    /// The address of the party that is allowed to fill the order.
    pub taker: Address,
    /// The amount of `taker_token` being sold by the taker.
    pub taker_amount: u128,
    /// The address of the ERC20 token the taker is selling to the maker.
    pub taker_token: Address,
    /// Amount of takerToken paid by the taker to the feeRecipient.
    pub taker_token_fee_amount: u128,
    /// Address of the contract where the transaction should be sent.
    pub verifying_contract: Address,
}

/// An order together with its metadata.
#[derive(Clone, Debug, PartialEq, Eq)]
pub struct OrderRecord {
    order: Order,
    metadata: OrderMetadata,
}

/// Why the remaining maker amount cannot be computed.
#[derive(Clone, Copy, Debug, PartialEq, Eq)]
pub enum RemainingAmountError {
    /// The metadata claims more remaining taker amount than the order has.
    RemainingExceedsTotal,
}

impl RemainingAmountError {
    /// The error's message.
    pub fn message(&self) -> (r: String)
        ensures
            r@ == "remaining taker amount bigger than total taker amount"@,
    {
        String::from_str("remaining taker amount bigger than total taker amount")
    }
}

/// The calldata, value and target of an executable swap.
#[derive(Clone, Debug, PartialEq, Eq)]
pub struct MethodParameters {
    pub calldata: String,
    pub value: String,
    pub to: String,
}

/// The maker amount scaled down to what is still fillable, rounded down.
pub open spec fn scaled_maker_amount(maker: nat, remaining: nat, taker: nat) -> nat {
    maker * remaining / taker
}

/// The remaining maker amount scaled from a fillable taker amount never
/// exceeds the maker amount.
pub proof fn lemma_scaled_maker_amount_bounded(maker: nat, remaining: nat, taker: nat)
    requires
        remaining <= taker,
        taker > 0,
    ensures
        scaled_maker_amount(maker, remaining, taker) <= maker,
{
    assert(maker * remaining <= maker * taker) by (nonlinear_arith)
        requires remaining <= taker;
    lemma_div_is_ordered((maker * remaining) as int, (maker * taker) as int, taker as int);
    lemma_div_multiples_vanish(maker as int, taker as int);
    assert(taker * maker == maker * taker) by (nonlinear_arith);
}

/// An order of which nothing has been filled still offers its whole maker
/// amount.
pub proof fn lemma_unfilled_order_keeps_maker_amount(maker: nat, taker: nat)
    requires
        taker > 0,
    ensures
        scaled_maker_amount(maker, taker, taker) == maker,
{
    lemma_div_multiples_vanish(maker as int, taker as int);
    assert(taker * maker == maker * taker) by (nonlinear_arith);
}

/// An order whose taker amount is used up offers nothing more.
pub proof fn lemma_filled_order_offers_nothing(maker: nat, taker: nat)
    requires
        taker > 0,
    ensures
        scaled_maker_amount(maker, 0, taker) == 0,
{
}

/// The more of the taker amount remains, the more of the maker amount is
/// offered.
pub proof fn lemma_scaled_maker_amount_monotonic(maker: nat, r1: nat, r2: nat, taker: nat)
    requires
        r1 <= r2,
        taker > 0,
    ensures
        scaled_maker_amount(maker, r1, taker) <= scaled_maker_amount(maker, r2, taker),
{
    assert(maker * r1 <= maker * r2) by (nonlinear_arith)
        requires r1 <= r2;
    lemma_div_is_ordered((maker * r1) as int, (maker * r2) as int, taker as int);
}

proof fn lemma_u128_product_fits(a: u128, b: u128)
    ensures
        (a as nat) * (b as nat) < modulus256(),
{
    assert((a as nat) * (b as nat) < base128() * base128()) by (nonlinear_arith)
        requires a < base128(), b < base128();
}

impl OrderRecord {
    /// An order record.
    pub fn new(order: Order, metadata: OrderMetadata) -> (r: OrderRecord)
        ensures
            r.order_spec() == order,
            r.metadata_spec() == metadata,
    {
        OrderRecord { order, metadata }
    }

    /// The order's metadata.
    pub closed spec fn metadata_spec(&self) -> OrderMetadata {
        self.metadata
    }

    /// The order.
    pub closed spec fn order_spec(&self) -> Order {
        self.order
    }

    /// The order's metadata.
    pub fn metadata(&self) -> (r: &OrderMetadata)
        ensures
            *r == self.metadata_spec(),
    {
        &self.metadata
    }

    /// The order.
    pub fn order(&self) -> (r: &Order)
        ensures
            *r == self.order_spec(),
    {
        &self.order
    }

    /// Scales the `maker_amount` according to how much of the partially
    /// fillable amount was already used: `maker * remaining / taker`, rounded
    /// down. Fails when more taker amount remains than the order holds.
    pub fn remaining_maker_amount(&self) -> (r: Result<u128, RemainingAmountError>)
        requires
            self.order_spec().taker_amount > 0
                || self.metadata_spec().remaining_fillable_taker_amount > 0,
        ensures
            r is Err <==> self.metadata_spec().remaining_fillable_taker_amount
                > self.order_spec().taker_amount,
            r matches Ok(v) ==> v == scaled_maker_amount(
                self.order_spec().maker_amount as nat,
                self.metadata_spec().remaining_fillable_taker_amount as nat,
                self.order_spec().taker_amount as nat,
            ),
            r matches Ok(v) ==> v <= self.order_spec().maker_amount,
    {
        let remaining = self.metadata.remaining_fillable_taker_amount;
        let taker = self.order.taker_amount;
        let maker = self.order.maker_amount;
        if remaining > taker {
            return Err(RemainingAmountError::RemainingExceedsTotal);
        }
        proof {
            lemma_u128_product_fits(maker, remaining);
            lemma_scaled_maker_amount_bounded(maker as nat, remaining as nat, taker as nat);
        }
        let product = u256_mul(U256::from_u128(maker), U256::from_u128(remaining));
        let scaled = u256_div(product, U256::from_u128(taker));
        Ok(scaled.as_u128())
    }
}

/// The address that stands for the native token in queries.
pub open spec fn zero_address_text() -> Seq<char> {
    "0x0000000000000000000000000000000000000000"@
}

/// The token as the routing API wants it: "ETH" for the zero address.
pub open spec fn spec_resolve_address(token: Seq<char>) -> Seq<char> {
    if token == zero_address_text() {
        "ETH"@
    } else {
        token
    }
}

/// The routing API requires that "ETH" be used instead of the zero address.
pub fn resolve_address(token: &str) -> (r: String)
    ensures
        r@ == spec_resolve_address(token@),
{
    if str_eq(token, "0x0000000000000000000000000000000000000000") {
        return String::from_str("ETH");
    }
    String::from_str(token)
}

/// Resolving a token a second time changes nothing.
pub proof fn lemma_resolve_address_idempotent(token: Seq<char>)
    ensures
        spec_resolve_address(spec_resolve_address(token)) == spec_resolve_address(token),
{
    reveal_strlit("ETH");
    reveal_strlit("0x0000000000000000000000000000000000000000");
    assert("ETH"@.len() != zero_address_text().len());
}

/// Whether a routing response reports success: code 0 and the message
/// "successfully" or "OK".
pub fn is_successful_response(response: &KyberRouteResponse) -> (r: bool)
    ensures
        r == (response.code == 0 && (response.message@ == "successfully"@
            || response.message@ == "OK"@)),
{
    response.code == 0 && (str_eq(response.message.as_str(), "successfully") || str_eq(
        response.message.as_str(),
        "OK",
    ))
}

impl KyberRoutingApiQuery {
    /// The same query with both tokens resolved for the API.
    pub fn resolve(&self) -> (r: KyberRoutingApiQuery)
        ensures
            r.token_in@ == spec_resolve_address(self.token_in@),
            r.token_out@ == spec_resolve_address(self.token_out@),
            r.amount_in@ == self.amount_in@,
    {
        KyberRoutingApiQuery {
            token_in: resolve_address(self.token_in.as_str()),
            token_out: resolve_address(self.token_out.as_str()),
            amount_in: String::from_str(self.amount_in.as_str()),
        }
    }
}

impl KyberRoutingApiQuery {
    /// The query parameters of the routing URL, in the order they are
    /// appended: token in, token out, amount in.
    pub fn query_pairs(&self) -> (r: Vec<(String, String)>)
        ensures
            r@.len() == 3,
            r@[0].0@ == "tokenIn"@ && r@[0].1@ == self.token_in@,
            r@[1].0@ == "tokenOut"@ && r@[1].1@ == self.token_out@,
            r@[2].0@ == "amountIn"@ && r@[2].1@ == self.amount_in@,
    {
        let mut r: Vec<(String, String)> = Vec::new();
        r.push((String::from_str("tokenIn"), String::from_str(self.token_in.as_str())));
        r.push((String::from_str("tokenOut"), String::from_str(self.token_out.as_str())));
        r.push((String::from_str("amountIn"), String::from_str(self.amount_in.as_str())));
        r
    }
}

impl Default for KyberRoutingApiQuery {
    /// One PURR sold for USDHL.
    fn default() -> (r: KyberRoutingApiQuery)
        ensures
            r.token_in@ == "0x9b498C3c8A0b8CD8BA1D9851d40D186F1872b44E"@,
            r.token_out@ == "0xb50A96253aBDF803D85efcDce07Ad8becBc52BD5"@,
            r.amount_in@ == "1000000000000000000"@,
    {
        KyberRoutingApiQuery {
            token_in: String::from_str("0x9b498C3c8A0b8CD8BA1D9851d40D186F1872b44E"),
            token_out: String::from_str("0xb50A96253aBDF803D85efcDce07Ad8becBc52BD5"),
            amount_in: String::from_str("1000000000000000000"),
        }
    }
}

/// The routing request URL: the base URL, "/routes", "?" and the query string.
pub fn routes_url(base_url: &str, query_string: &str) -> (r: String)
    ensures
        r@ == base_url@ + "/routes?"@ + query_string@,
{
    let r = String::from_str(base_url);
    let r = r.concat("/routes?");
    r.concat(query_string)
}

/// The route build request URL: the base URL followed by "/route/build".
pub fn route_build_url(base_url: &str) -> (r: String)
    ensures
        r@ == base_url@ + "/route/build"@,
{
    String::from_str(base_url).concat("/route/build")
}

/// A pool's extra data with each present field kept and each absent field
/// left absent, as the build request sends it.
pub fn rebuild_pool_extra(extra: KyberPoolExtra) -> (r: KyberPoolExtra)
    ensures
        r == extra,
{
    let mut out = KyberPoolExtra {
        swap_fee: None,
        price_limit: None,
        buffer_in: None,
        buffer_out: None,
        block_number: None,
    };
    if extra.swap_fee.is_some() {
        out.swap_fee = extra.swap_fee;
    }
    if extra.price_limit.is_some() {
        out.price_limit = extra.price_limit;
    }
    if extra.buffer_in.is_some() {
        out.buffer_in = extra.buffer_in;
    }
    if extra.buffer_out.is_some() {
        out.buffer_out = extra.buffer_out;
    }
    if extra.block_number.is_some() {
        out.block_number = extra.block_number;
    }
    out
}

/// A route step with its pool extra rebuilt field by field.
pub fn prepare_route_step(step: KyberRouteStep) -> (r: KyberRouteStep)
    ensures
        r == step,
{
    let KyberRouteStep {
        pool,
        token_in,
        token_out,
        swap_amount,
        amount_out,
        exchange,
        pool_type,
        pool_extra,
        extra,
    } = step;
    KyberRouteStep {
        pool,
        token_in,
        token_out,
        swap_amount,
        amount_out,
        exchange,
        pool_type,
        pool_extra: rebuild_pool_extra(pool_extra),
        extra,
    }
}

/// The steps of one path with each step prepared, in the same order.
fn prepare_path(steps: Vec<KyberRouteStep>) -> (r: Vec<KyberRouteStep>)
    ensures
        r@ == steps@,
{
    let ghost steps0 = steps@;
    let mut steps = steps;
    let mut out: Vec<KyberRouteStep> = Vec::new();
    while steps.len() > 0
        invariant
            steps0 == out@ + steps@,
        decreases steps.len(),
    {
        let ghost before = steps@;
        let step = steps.remove(0);
        let step = prepare_route_step(step);
        out.push(step);
        proof {
            assert(before =~= seq![step] + steps@);
            assert(steps0 =~= out@ + steps@);
        }
    }
    proof {
        assert(out@ =~= steps0);
    }
    out
}

/// The paths of a route, each as the sequence of its steps.
pub open spec fn route_view(route: Seq<Vec<KyberRouteStep>>) -> Seq<Seq<KyberRouteStep>> {
    route.map_values(|p: Vec<KyberRouteStep>| p@)
}

/// Two route summaries hold the same data: equal fields and, path by path,
/// the same steps.
pub open spec fn same_route_summary(a: KyberRouteSummary, b: KyberRouteSummary) -> bool {
    &&& a.token_in == b.token_in
    &&& a.amount_in == b.amount_in
    &&& a.amount_in_usd == b.amount_in_usd
    &&& a.token_out == b.token_out
    &&& a.amount_out == b.amount_out
    &&& a.amount_out_usd == b.amount_out_usd
    &&& a.gas == b.gas
    &&& a.gas_price == b.gas_price
    &&& a.gas_usd == b.gas_usd
    &&& a.l1_fee_usd == b.l1_fee_usd
    &&& a.extra_fee == b.extra_fee
    &&& route_view(a.route@) == route_view(b.route@)
    &&& a.route_id == b.route_id
    &&& a.checksum == b.checksum
    &&& a.timestamp == b.timestamp
}

/// The route summary that a build request sends: every step's pool extra
/// rebuilt field by field, which leaves the summary's data as it was.
pub fn prepare_route_summary(summary: KyberRouteSummary) -> (r: KyberRouteSummary)
    ensures
        same_route_summary(r, summary),
{
    let KyberRouteSummary {
        token_in,
        amount_in,
        amount_in_usd,
        token_out,
        amount_out,
        amount_out_usd,
        gas,
        gas_price,
        gas_usd,
        l1_fee_usd,
        extra_fee,
        route,
        route_id,
        checksum,
        timestamp,
    } = summary;
    let ghost route0 = route_view(route@);
    let mut route = route;
    let mut ordered: Vec<Vec<KyberRouteStep>> = Vec::new();
    while route.len() > 0
        invariant
            route0 =~= route_view(ordered@) + route_view(route@),
        decreases route.len(),
    {
        let ghost before = route@;
        let path = route.remove(0);
        let ghost path0 = path@;
        let path = prepare_path(path);
        ordered.push(path);
        proof {
            assert(before =~= seq![before[0]] + route@);
            assert(route_view(before) =~= seq![path0] + route_view(route@));
            assert(route_view(ordered@) =~= route_view(ordered@.drop_last()) + seq![path0]);
        }
    }
    proof {
        assert(route_view(route@) =~= Seq::<Seq<KyberRouteStep>>::empty());
    }
    KyberRouteSummary {
        token_in,
        amount_in,
        amount_in_usd,
        token_out,
        amount_out,
        amount_out_usd,
        gas,
        gas_price,
        gas_usd,
        l1_fee_usd,
        extra_fee,
        route: ordered,
        route_id,
        checksum,
        timestamp,
    }
}

/// The body of a route build request.
pub fn build_swap_request(
    route_summary: KyberRouteSummary,
    sender: String,
    recipient: String,
    deadline: u64,
    slippage_tolerance: u64,
) -> (r: KyberBuildRequest)
    ensures
        same_route_summary(r.route_summary, route_summary),
        r.sender == sender,
        r.recipient == recipient,
        r.deadline == deadline,
        r.slippage_tolerance == slippage_tolerance,
{
    KyberBuildRequest {
        route_summary: prepare_route_summary(route_summary),
        sender,
        recipient,
        deadline,
        slippage_tolerance,
    }
}

/// The swap that a build response describes: its calldata, the transaction
/// value and the router to call.
pub fn method_parameters(response: KyberRouteBuildResponse) -> (r: MethodParameters)
    ensures
        r.calldata == response.data.data,
        r.value == response.data.transaction_value,
        r.to == response.data.router_address,
{
    MethodParameters {
        calldata: response.data.data,
        value: response.data.transaction_value,
        to: response.data.router_address,
    }
}

} // verus!
