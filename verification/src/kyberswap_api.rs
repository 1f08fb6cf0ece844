//! KyberSwap Aggregator API data and the computations around its requests
//! and responses: query parameters, endpoint paths, status handling and
//! response checking.

use crate::address::{address_lower_hex, h160_parse, parse_h160, Address};
use crate::kyber_api::OutputChange;
use crate::text::{format_i64, int_to_decimal, nat_to_decimal, strip_0x, hex_value, all_hex_digits};
use crate::uint::{u256_from_hex_str, u256_to_decimal, U256};
use vstd::prelude::*;

verus! {

/// Configuration of the KyberSwap API client.
#[derive(Clone, Debug, PartialEq, Eq)]
pub struct KyberSwapConfig {
    /// Base URL of the aggregator API.
    pub api_url: String,
    /// Chain name (e.g. "hyperevm").
    pub chain_name: String,
    /// HTTP request timeout, in milliseconds.
    pub http_timeout_ms: u64,
    /// Client ID sent with each request.
    pub client_id: String,
}

/// Parameters of a route lookup.
#[derive(Clone, Copy, Debug, PartialEq, Eq)]
pub struct RouteRequest {
    pub token_in: Address,
    pub token_out: Address,
    pub amount_in: U256,
    pub gas_include: Option<bool>,
    pub gas_price: Option<U256>,
}

/// Extra pool data of a route step; `price_limit` holds JSON text.
#[derive(Clone, Debug, Default, PartialEq, Eq)]
pub struct PoolExtra {
    pub swap_fee: Option<u64>,
    pub price_limit: Option<String>,
    pub buffer_in: Option<String>,
    pub buffer_out: Option<String>,
    pub block_number: Option<u64>,
}

/// Extra pool state of a route step.
#[derive(Clone, Debug, Default, PartialEq, Eq)]
pub struct RouteStepExtra {
    pub next_state_tick_current: Option<i32>,
    pub _cs: Option<String>,
    pub _ts: Option<String>,
    pub ri: Option<String>,
    pub n_sqrt_rx96: Option<String>,
}

/// One swap through one pool.
#[derive(Clone, Debug, PartialEq, Eq)]
pub struct RouteStep {
    pub pool: String,
    pub token_in: String,
    pub token_out: String,
    pub swap_amount: String,
    pub amount_out: String,
    pub exchange: String,
    pub pool_type: String,
    pub pool_extra: Option<PoolExtra>,
    pub extra: Option<RouteStepExtra>,
}

/// A fee charged on top of the swap.
#[derive(Clone, Debug, PartialEq, Eq)]
pub struct ExtraFee {
    pub fee_amount: String,
    pub charge_fee_by: String,
    pub is_in_bps: bool,
    pub fee_receiver: String,
}

/// The route that KyberSwap found.
#[derive(Clone, Debug, PartialEq, Eq)]
pub struct RouteSummary {
    pub token_in: String,
    pub amount_in: String,
    pub amount_in_usd: String,
    pub token_out: String,
    pub amount_out: String,
    pub amount_out_usd: String,
    pub gas: String,
    pub gas_price: String,
    pub gas_usd: String,
    pub l1_fee_usd: String,
    pub extra_fee: ExtraFee,
    pub route: Vec<Vec<RouteStep>>,
    pub route_id: String,
    pub checksum: String,
    pub timestamp: u64,
}

/// A route lookup response.
#[derive(Clone, Debug, PartialEq, Eq)]
pub struct RouteResponse {
    /// Response code (0 = success).
    pub code: i32,
    pub message: String,
    pub data: RouteSummaryData,
    pub request_id: String,
}

/// The payload of a route lookup response.
#[derive(Clone, Debug, PartialEq, Eq)]
pub struct RouteSummaryData {
    pub route_summary: RouteSummary,
    pub router_address: String,
}

/// A request to build executable transaction data from a route.
#[derive(Clone, Debug, PartialEq, Eq)]
pub struct BuildRouteRequest {
    pub route_summary: RouteSummary,
    /// Slippage tolerance in basis points (e.g. 50 = 0.5%).
    pub slippage: u32,
    pub sender: Address,
    pub recipient: Address,
    /// Deadline, in Unix seconds.
    pub deadline: u64,
}

/// Executable transaction data of a route.
#[derive(Clone, Debug, PartialEq, Eq)]
pub struct BuildRouteResponse {
    /// Hex-encoded calldata for the router.
    pub encoded_data: String,
    pub router_address: Address,
    pub value: U256,
}

/// The raw response of the build endpoint.
#[derive(Clone, Debug, PartialEq, Eq)]
pub struct RouteBuildResponse {
    pub code: i32,
    pub message: String,
    pub data: RouteBuildResponseData,
    pub request_id: Option<String>,
}

/// The raw payload of the build endpoint.
#[derive(Clone, Debug, PartialEq, Eq)]
pub struct RouteBuildResponseData {
    pub amount_in: String,
    pub amount_in_usd: String,
    pub amount_out: String,
    pub amount_out_usd: String,
    pub gas: String,
    pub gas_usd: String,
    pub additional_cost_usd: String,
    pub additional_cost_message: String,
    pub output_change: OutputChange,
    pub data: String,
    pub router_address: String,
    pub transaction_value: String,
}

/// The body that the build endpoint is sent.
#[derive(Clone, Debug, PartialEq, Eq)]
pub struct BuildRequest {
    pub route_summary: RouteSummary,
    pub sender: String,
    pub recipient: String,
    pub deadline: u64,
    pub slippage_tolerance: u64,
}

/// Errors of the KyberSwap API.
#[derive(Clone, Debug, PartialEq, Eq)]
pub enum KyberSwapApiError {
    /// The HTTP request failed; the text describes why.
    RequestFailed(String),
    /// No route exists for the token pair.
    NoRouteFound,
    /// The API rate-limited the request.
    RateLimited,
    /// The response body could not be read.
    DeserializationError(String),
    /// The API answered with an error.
    InvalidResponse(String),
}

/// How an HTTP status is handled.
#[derive(Clone, Copy, Debug, PartialEq, Eq)]
pub enum ResponseStatus {
    /// 429: rate limited.
    RateLimited,
    /// 404 of a route lookup: no route.
    NoRouteFound,
    /// 2xx: read the body.
    Success,
    /// Anything else: an invalid response.
    Failure,
}

/// An address as query parameters carry it: "0x" and forty lower-case
/// hexadecimal digits.
pub fn addr2str(addr: Address) -> (r: String)
    ensures
        r@ == address_lower_hex(addr@),
{
    addr.to_lower_hex()
}

/// The path of an endpoint below the base URL: the chain name, "/api/v1",
/// then the endpoint's own path.
pub fn endpoint_path(chain_name: &str, path: &str) -> (r: String)
    ensures
        r@ == chain_name@ + "/api/v1"@ + path@,
{
    String::from_str(chain_name).concat("/api/v1").concat(path)
}

/// The handling of a status: 429 is rate limiting, 404 of a route lookup
/// (not of a build request) means no route, 2xx is success, anything else a
/// failure.
pub open spec fn classify_status_spec(status: u16, route_lookup: bool) -> ResponseStatus {
    if status == 429 {
        ResponseStatus::RateLimited
    } else if status == 404 && route_lookup {
        ResponseStatus::NoRouteFound
    } else if 200 <= status && status < 300 {
        ResponseStatus::Success
    } else {
        ResponseStatus::Failure
    }
}

/// How a response status is handled.
pub fn classify_status(status: u16, route_lookup: bool) -> (r: ResponseStatus)
    ensures
        r == classify_status_spec(status, route_lookup),
{
    if status == 429 {
        ResponseStatus::RateLimited
    } else if status == 404 && route_lookup {
        ResponseStatus::NoRouteFound
    } else if 200 <= status && status < 300 {
        ResponseStatus::Success
    } else {
        ResponseStatus::Failure
    }
}

/// `Ok` when the body of the response is to be read; otherwise the error:
/// rate limited, no route, or "HTTP <status>: <body>".
pub fn check_status(status: u16, route_lookup: bool, status_text: &str, body: &str) -> (r: Result<
    (),
    KyberSwapApiError,
>)
    ensures
        classify_status_spec(status, route_lookup) == ResponseStatus::Success ==> r is Ok,
        classify_status_spec(status, route_lookup) == ResponseStatus::RateLimited ==> r == Err::<
            (),
            KyberSwapApiError,
        >(KyberSwapApiError::RateLimited),
        classify_status_spec(status, route_lookup) == ResponseStatus::NoRouteFound ==> r == Err::<
            (),
            KyberSwapApiError,
        >(KyberSwapApiError::NoRouteFound),
        classify_status_spec(status, route_lookup) == ResponseStatus::Failure ==> (r matches Err(
            KyberSwapApiError::InvalidResponse(m),
        ) && m@ == "HTTP "@ + status_text@ + ": "@ + body@),
{
    match classify_status(status, route_lookup) {
        ResponseStatus::RateLimited => Err(KyberSwapApiError::RateLimited),
        ResponseStatus::NoRouteFound => Err(KyberSwapApiError::NoRouteFound),
        ResponseStatus::Success => Ok(()),
        ResponseStatus::Failure => {
            let m = String::from_str("HTTP ").concat(status_text).concat(": ").concat(body);
            Err(KyberSwapApiError::InvalidResponse(m))
        },
    }
}

/// The text of `bool`'s `to_string`.
pub open spec fn bool_text(b: bool) -> Seq<char> {
    if b {
        "true"@
    } else {
        "false"@
    }
}

/// The query parameters of a route lookup, as (name, value) pairs in the
/// order the request appends them.
pub open spec fn spec_route_query(request: RouteRequest) -> Seq<(Seq<char>, Seq<char>)> {
    let base = seq![
        ("tokenIn"@, address_lower_hex(request.token_in@)),
        ("tokenOut"@, address_lower_hex(request.token_out@)),
        ("amountIn"@, nat_to_decimal(request.amount_in@)),
    ];
    let with_gas = match request.gas_include {
        Some(g) => base.push(("gasInclude"@, bool_text(g))),
        None => base,
    };
    match request.gas_price {
        Some(p) => with_gas.push(("gasPrice"@, nat_to_decimal(p@))),
        None => with_gas,
    }
}

/// A route lookup asks for a route from the request's input token to its
/// output token for its input amount: the first three query pairs name
/// them, in that order, and the gas flag and gas price follow only where
/// the request has them.
pub proof fn lemma_route_query_names_request(request: RouteRequest)
    ensures
        spec_route_query(request).len() == 3 + (if request.gas_include is Some { 1int } else { 0 }) + (
        if request.gas_price is Some { 1int } else { 0 }),
        spec_route_query(request)[0] == ("tokenIn"@, address_lower_hex(request.token_in@)),
        spec_route_query(request)[1] == ("tokenOut"@, address_lower_hex(request.token_out@)),
        spec_route_query(request)[2] == ("amountIn"@, nat_to_decimal(request.amount_in@)),
        request.gas_include matches Some(g) ==> spec_route_query(request)[3] == ("gasInclude"@, bool_text(g)),
        request.gas_price matches Some(p) ==> spec_route_query(request).last() == ("gasPrice"@, nat_to_decimal(
            p@,
        )),
{
}

/// The pairs as plain character sequences.
pub open spec fn pairs_view(v: Seq<(String, String)>) -> Seq<(Seq<char>, Seq<char>)> {
    v.map_values(|p: (String, String)| (p.0@, p.1@))
}

/// The query parameters of a route lookup: token in, token out, amount in,
/// then the gas flag and gas price where the request has them.
pub fn route_query_pairs(request: &RouteRequest) -> (r: Vec<(String, String)>)
    ensures
        pairs_view(r@) == spec_route_query(*request),
        r@.len() >= 3,
        r@[0].0@ == "tokenIn"@ && r@[0].1@ == address_lower_hex(request.token_in@),
        r@[1].0@ == "tokenOut"@ && r@[1].1@ == address_lower_hex(request.token_out@),
        r@[2].0@ == "amountIn"@ && r@[2].1@ == nat_to_decimal(request.amount_in@),
{
    let mut v: Vec<(String, String)> = Vec::new();
    v.push((String::from_str("tokenIn"), addr2str(request.token_in)));
    v.push((String::from_str("tokenOut"), addr2str(request.token_out)));
    v.push((String::from_str("amountIn"), u256_to_decimal(request.amount_in)));
    proof {
        assert(pairs_view(v@) =~= seq![
            ("tokenIn"@, address_lower_hex(request.token_in@)),
            ("tokenOut"@, address_lower_hex(request.token_out@)),
            ("amountIn"@, nat_to_decimal(request.amount_in@)),
        ]);
    }
    match request.gas_include {
        Some(g) => {
            let t = if g {
                String::from_str("true")
            } else {
                String::from_str("false")
            };
            let ghost before = v@;
            v.push((String::from_str("gasInclude"), t));
            proof {
                assert(pairs_view(v@) =~= pairs_view(before).push(("gasInclude"@, bool_text(g))));
            }
        },
        None => {},
    }
    match request.gas_price {
        Some(p) => {
            let ghost before = v@;
            v.push((String::from_str("gasPrice"), u256_to_decimal(p)));
            proof {
                assert(pairs_view(v@) =~= pairs_view(before).push(("gasPrice"@, nat_to_decimal(p@))));
            }
        },
        None => {},
    }
    proof {
        lemma_route_query_names_request(*request);
        assert(pairs_view(v@)[0] == (v@[0].0@, v@[0].1@));
        assert(pairs_view(v@)[1] == (v@[1].0@, v@[1].1@));
        assert(pairs_view(v@)[2] == (v@[2].0@, v@[2].1@));
    }
    v
}

/// The message of an error code that the API returned.
pub open spec fn api_error_message(code: i32, message: Seq<char>) -> Seq<char> {
    "KyberSwap API error: code="@ + int_to_decimal(code as int) + ", message="@ + message
}

/// Builds the error message of a non-zero response code.
fn api_error(code: i32, message: &str) -> (r: KyberSwapApiError)
    ensures
        r matches KyberSwapApiError::InvalidResponse(m) && m@ == api_error_message(code, message@),
{
    let m = String::from_str("KyberSwap API error: code=").concat(format_i64(code as i64).as_str())
        .concat(", message=").concat(message);
    KyberSwapApiError::InvalidResponse(m)
}

/// The route of a lookup response, or the API's error for a non-zero code.
pub fn check_route_response(response: RouteResponse) -> (r: Result<RouteSummary, KyberSwapApiError>)
    ensures
        response.code == 0 ==> r == Ok::<RouteSummary, KyberSwapApiError>(
            response.data.route_summary,
        ),
        response.code != 0 ==> (r matches Err(KyberSwapApiError::InvalidResponse(m)) && m@
            == api_error_message(response.code, response.message@)),
{
    if response.code != 0 {
        return Err(api_error(response.code, response.message.as_str()));
    }
    Ok(response.data.route_summary)
}

/// The body of a build request: the route, the sender and recipient as
/// lower-case hexadecimal, the deadline and the slippage in basis points.
pub fn build_request_body(request: BuildRouteRequest) -> (r: BuildRequest)
    ensures
        r.route_summary == request.route_summary,
        r.sender@ == address_lower_hex(request.sender@),
        r.recipient@ == address_lower_hex(request.recipient@),
        r.deadline == request.deadline,
        r.slippage_tolerance == request.slippage,
{
    BuildRequest {
        sender: addr2str(request.sender),
        recipient: addr2str(request.recipient),
        deadline: request.deadline,
        slippage_tolerance: request.slippage as u64,
        route_summary: request.route_summary,
    }
}

/// The router address that a build response names, or the zero address when
/// the text is not an address.
pub open spec fn router_of(text: Seq<char>) -> Seq<u8> {
    match h160_parse(text) {
        Some(b) => b,
        None => Seq::new(20, |i: int| 0u8),
    }
}

/// The transaction value that a build response names, read as hexadecimal,
/// or zero when the text is not that.
pub open spec fn value_of(text: Seq<char>) -> nat {
    if strip_0x(text).len() <= 64 && all_hex_digits(strip_0x(text)) {
        hex_value(strip_0x(text))
    } else {
        0
    }
}

/// The executable transaction of a build response, or the API's error for a
/// non-zero code. An unreadable router address becomes the zero address and
/// an unreadable value becomes zero.
pub fn check_build_response(response: RouteBuildResponse) -> (r: Result<
    BuildRouteResponse,
    KyberSwapApiError,
>)
    ensures
        response.code != 0 ==> (r matches Err(KyberSwapApiError::InvalidResponse(m)) && m@
            == api_error_message(response.code, response.message@)),
        response.code == 0 ==> (r matches Ok(b) && b.encoded_data == response.data.data
            && b.router_address@ == router_of(response.data.router_address@) && b.value@
            == value_of(response.data.transaction_value@)),
{
    if response.code != 0 {
        return Err(api_error(response.code, response.message.as_str()));
    }
    let router_address = match parse_h160(response.data.router_address.as_str()) {
        Some(a) => a,
        None => Address::zero(),
    };
    let value = match u256_from_hex_str(response.data.transaction_value.as_str()) {
        Some(v) => v,
        None => U256::zero(),
    };
    Ok(BuildRouteResponse { encoded_data: response.data.data, router_address, value })
}

} // verus!
