//! Kyber Aggregator liquidity: quotes turned into limit orders, and the
//! settlement call that a built swap describes.

use crate::address::{address_lower_hex, Address};
use crate::kyber_api::{
    build_swap_request, same_route_summary, KyberBuildRequest, KyberRouteResponse,
    KyberRoutingApiQuery, MethodParameters,
};
use crate::kyberswap_api::value_of;
use crate::liquidity::{
    is_call_step, EncodedInteraction, Exchange, LimitOrder, LimitOrderExecution, LimitOrderId, Liquidity,
    LiquidityOrderId, OrderKind, PlannedInteraction, SettlementEncoder, SettlementHandler,
};
use crate::text::{all_dec_digits, bytes_hex, dec_value, decode_hex, lemma_bytes_hex_injective, lemma_bytes_hex_len, lemma_nat_to_decimal_injective, hex_decode, nat_to_decimal, trim_all_0x, trim_start_0x};
use crate::uint::{modulus256, u256_from_dec_str, u256_from_hex_str, u256_to_decimal, U256};
use vstd::prelude::*;

verus! {

/// Settles a Kyber swap by calling its router.
#[derive(Clone, Debug, PartialEq, Eq)]
pub struct KyberSettlementHandler {
    pub method: MethodParameters,
}

/// Why a built swap cannot be turned into a call.
#[derive(Clone, Debug, PartialEq, Eq)]
pub enum KyberCallError {
    /// The calldata is not hexadecimal.
    InvalidCalldata(String),
    /// The router address is not hexadecimal.
    InvalidRouter(String),
}

impl KyberCallError {
    /// The error's message.
    pub fn message(&self) -> (r: String)
        ensures
            self is InvalidCalldata ==> r@ == "failed to decode Kyber calldata from build_swap"@,
            self is InvalidRouter ==> r@ == "failed to decode Kyber router address"@,
    {
        match self {
            KyberCallError::InvalidCalldata(_) => String::from_str(
                "failed to decode Kyber calldata from build_swap",
            ),
            KyberCallError::InvalidRouter(_) => String::from_str(
                "failed to decode Kyber router address",
            ),
        }
    }
}

/// Whether the router of a built swap, when its calldata decodes, is twenty
/// bytes long; `H160::from_slice` panics on any other length.
pub open spec fn router_fits(method: MethodParameters) -> bool {
    hex_decode(trim_all_0x(method.calldata@)) is Some ==> match hex_decode(trim_all_0x(method.to@)) {
        Some(b) => b.len() == 20,
        None => true,
    }
}

/// The call that a built swap describes: the router (hex, leading "0x"
/// removed), the value read as hexadecimal (zero when unreadable) and the
/// decoded calldata.
pub fn decode_method(method: &MethodParameters) -> (r: Result<EncodedInteraction, KyberCallError>)
    requires
        router_fits(*method),
    ensures
        hex_decode(trim_all_0x(method.calldata@)) is None ==> r matches Err(
            KyberCallError::InvalidCalldata(_),
        ),
        hex_decode(trim_all_0x(method.calldata@)) is Some && hex_decode(trim_all_0x(method.to@))
            is None ==> r matches Err(KyberCallError::InvalidRouter(_)),
        r matches Ok(i) ==> i.call_data@ == hex_decode(trim_all_0x(method.calldata@))->0
            && i.target@ == hex_decode(trim_all_0x(method.to@))->0 && i.value@ == value_of(
            method.value@,
        ),
        r is Ok <==> (hex_decode(trim_all_0x(method.calldata@)) is Some && hex_decode(
            trim_all_0x(method.to@),
        ) is Some),
{
    let call_data_hex = trim_start_0x(method.calldata.as_str());
    let call_data = match decode_hex(call_data_hex.as_str()) {
        Ok(v) => v,
        Err(e) => return Err(KyberCallError::InvalidCalldata(e)),
    };
    let target_hex = trim_start_0x(method.to.as_str());
    let target_bytes = match decode_hex(target_hex.as_str()) {
        Ok(v) => v,
        Err(e) => return Err(KyberCallError::InvalidRouter(e)),
    };
    let target = Address::from_slice(target_bytes.as_slice());
    let value = match u256_from_hex_str(method.value.as_str()) {
        Some(v) => v,
        None => U256::zero(),
    };
    Ok(EncodedInteraction { target, value, call_data })
}

impl KyberSettlementHandler {
    /// Appends the swap's router call to the settlement, not internalizable.
    pub fn encode(&self, execution: LimitOrderExecution, encoder: &mut SettlementEncoder) -> (r:
        Result<(), KyberCallError>)
        requires
            router_fits(self.method),
        ensures
            r is Ok <==> (hex_decode(trim_all_0x(self.method.calldata@)) is Some && hex_decode(
                trim_all_0x(self.method.to@),
            ) is Some),
            r is Err ==> final(encoder).execution_plan@ == old(encoder).execution_plan@,
            r is Ok ==> final(encoder).execution_plan@.len() == old(encoder).execution_plan@.len() + 1,
            r is Ok ==> final(encoder).execution_plan@.drop_last() == old(encoder).execution_plan@,
            r is Ok ==> is_call_step(
                final(encoder).execution_plan@.last(),
                hex_decode(trim_all_0x(self.method.to@))->0,
                value_of(self.method.value@),
                hex_decode(trim_all_0x(self.method.calldata@))->0,
                false,
            ),
    {
        let call = decode_method(&self.method)?;
        encoder.append_to_execution_plan_internalizable(PlannedInteraction::Call(call), false);
        Ok(())
    }
}

/// The identifier of a Kyber route, unique to its input token, output
/// token and sell amount: "kyber_", both tokens in full lower-case
/// hexadecimal, and the sell amount in decimal, joined by "_".
pub open spec fn kyber_route_id(token_in: Seq<u8>, token_out: Seq<u8>, sell_amount: nat) -> Seq<
    char,
> {
    "kyber_"@ + address_lower_hex(token_in) + "_"@ + address_lower_hex(token_out) + "_"@ + nat_to_decimal(
        sell_amount,
    )
}

/// Kyber route ids are unique: routes with the same id have the same input
/// token, output token and sell amount.
pub proof fn lemma_kyber_route_id_unique(
    in1: Address,
    out1: Address,
    amount1: U256,
    in2: Address,
    out2: Address,
    amount2: U256,
)
    requires
        kyber_route_id(in1@, out1@, amount1@) == kyber_route_id(in2@, out2@, amount2@),
    ensures
        in1@ == in2@,
        out1@ == out2@,
        amount1@ == amount2@,
{
    reveal_strlit("kyber_");
    reveal_strlit("_");
    let x = kyber_route_id(in1@, out1@, amount1@);
    let y = kyber_route_id(in2@, out2@, amount2@);
    lemma_bytes_hex_len(in1@);
    lemma_bytes_hex_len(in2@);
    lemma_bytes_hex_len(out1@);
    lemma_bytes_hex_len(out2@);
    assert(x.subrange(8, 48) =~= bytes_hex(in1@));
    assert(y.subrange(8, 48) =~= bytes_hex(in2@));
    lemma_bytes_hex_injective(in1@, in2@);
    assert(x.subrange(51, 91) =~= bytes_hex(out1@));
    assert(y.subrange(51, 91) =~= bytes_hex(out2@));
    lemma_bytes_hex_injective(out1@, out2@);
    assert(x.skip(92) =~= nat_to_decimal(amount1@));
    assert(y.skip(92) =~= nat_to_decimal(amount2@));
    lemma_nat_to_decimal_injective(amount1@, amount2@);
}

/// Whether `l` is the limit order that a built Kyber swap offers: selling
/// exactly `sell_amount` of `token_in` for `buy_amount` of `token_out`,
/// named after the route and settled by calling the swap.
pub open spec fn is_kyber_route_order(
    l: Liquidity,
    method: MethodParameters,
    token_in: Address,
    token_out: Address,
    sell_amount: U256,
    buy_amount: U256,
) -> bool {
    &&& l matches Liquidity::LimitOrder(o)
    &&& o.id matches LimitOrderId::Liquidity(LiquidityOrderId::Kyber(id)) && id@ == kyber_route_id(
        token_in@,
        token_out@,
        sell_amount@,
    )
    &&& o.sell_token == token_in
    &&& o.buy_token == token_out
    &&& o.sell_amount == sell_amount
    &&& o.buy_amount == buy_amount
    &&& o.kind == OrderKind::Sell
    &&& !o.partially_fillable
    &&& o.user_fee@ == 0
    &&& o.settlement_handling == SettlementHandler::Kyber(KyberSettlementHandler { method })
    &&& o.exchange == Exchange::Kyber
}

/// The limit order that a built Kyber swap offers: selling exactly
/// `sell_amount` of `token_in` for `buy_amount` of `token_out`; none when
/// either amount is zero.
pub fn method_into_liquidity(
    method: MethodParameters,
    token_in: Address,
    token_out: Address,
    sell_amount: U256,
    buy_amount: U256,
) -> (r: Option<Liquidity>)
    ensures
        r is None <==> (sell_amount@ == 0 || buy_amount@ == 0),
        r matches Some(l) ==> is_kyber_route_order(l, method, token_in, token_out, sell_amount, buy_amount),
{
    if sell_amount.is_zero() || buy_amount.is_zero() {
        return None;
    }
    let route_id = String::from_str("kyber_").concat(token_in.to_lower_hex().as_str()).concat(
        "_",
    ).concat(token_out.to_lower_hex().as_str()).concat("_").concat(
        u256_to_decimal(sell_amount).as_str(),
    );
    Some(
        Liquidity::LimitOrder(
            LimitOrder {
                id: LimitOrderId::Liquidity(LiquidityOrderId::Kyber(route_id)),
                sell_token: token_in,
                buy_token: token_out,
                sell_amount,
                buy_amount,
                kind: OrderKind::Sell,
                partially_fillable: false,
                user_fee: U256::zero(),
                settlement_handling: SettlementHandler::Kyber(KyberSettlementHandler { method }),
                exchange: Exchange::Kyber,
            },
        ),
    )
}

/// The amount quoted for every pair: one token with 18 decimals.
pub open spec fn quote_amount_text() -> Seq<char> {
    "1000000000000000000"@
}

/// A quote request from `token_in` to `token_out`.
pub struct QuoteRequest {
    pub token_in: Address,
    pub token_out: Address,
    pub query: KyberRoutingApiQuery,
}

/// The quote requests for a list of token pairs: both directions of each
/// pair, in order, each for one token with 18 decimals.
pub fn quote_requests(pairs: &Vec<(Address, Address)>) -> (r: Vec<QuoteRequest>)
    ensures
        r@.len() == 2 * pairs@.len(),
        forall|i: int|
            0 <= i < pairs@.len() ==> {
                let (a, b) = pairs@[i];
                &&& (#[trigger] r@[2 * i]).token_in == a && r@[2 * i].token_out == b
                &&& r@[2 * i + 1].token_in == b && r@[2 * i + 1].token_out == a
            },
        forall|j: int|
            0 <= j < r@.len() ==> (#[trigger] r@[j]).query.token_in@ == address_lower_hex(
                r@[j].token_in@,
            ) && r@[j].query.token_out@ == address_lower_hex(r@[j].token_out@)
                && r@[j].query.amount_in@ == quote_amount_text(),
{
    let mut out: Vec<QuoteRequest> = Vec::new();
    let mut i: usize = 0;
    while i < pairs.len()
        invariant
            i <= pairs@.len(),
            out@.len() == 2 * i,
            forall|k: int|
                0 <= k < i ==> {
                    let (a, b) = pairs@[k];
                    &&& (#[trigger] out@[2 * k]).token_in == a && out@[2 * k].token_out == b
                    &&& out@[2 * k + 1].token_in == b && out@[2 * k + 1].token_out == a
                },
            forall|j: int|
                0 <= j < out@.len() ==> (#[trigger] out@[j]).query.token_in@ == address_lower_hex(
                    out@[j].token_in@,
                ) && out@[j].query.token_out@ == address_lower_hex(out@[j].token_out@)
                    && out@[j].query.amount_in@ == quote_amount_text(),
        decreases pairs@.len() - i,
    {
        let (a, b) = pairs[i];
        let ghost before = out@;
        out.push(
            QuoteRequest {
                token_in: a,
                token_out: b,
                query: KyberRoutingApiQuery {
                    token_in: a.to_lower_hex(),
                    token_out: b.to_lower_hex(),
                    amount_in: String::from_str("1000000000000000000"),
                },
            },
        );
        out.push(
            QuoteRequest {
                token_in: b,
                token_out: a,
                query: KyberRoutingApiQuery {
                    token_in: b.to_lower_hex(),
                    token_out: a.to_lower_hex(),
                    amount_in: String::from_str("1000000000000000000"),
                },
            },
        );
        proof {
            assert forall|k: int| 0 <= k < i + 1 implies {
                let (a, b) = pairs@[k];
                &&& (#[trigger] out@[2 * k]).token_in == a && out@[2 * k].token_out == b
                &&& out@[2 * k + 1].token_in == b && out@[2 * k + 1].token_out == a
            } by {
                if k < i {
                    assert(out@[2 * k] == before[2 * k]);
                    assert(out@[2 * k + 1] == before[2 * k + 1]);
                }
            }
            assert forall|j: int| 0 <= j < out@.len() implies (#[trigger] out@[j]).query.token_in@
                == address_lower_hex(out@[j].token_in@) && out@[j].query.token_out@
                == address_lower_hex(out@[j].token_out@) && out@[j].query.amount_in@
                == quote_amount_text() by {
                if j < before.len() {
                    assert(out@[j] == before[j]);
                }
            }
        }
        i = i + 1;
    }
    out
}

/// A token amount as the API writes it, a decimal string in the token's
/// smallest unit, read as `U256::from_dec_str` reads it: its value, if it
/// is all decimal digits and fits in 256 bits.
pub open spec fn dec_amount(text: Seq<char>) -> Option<nat> {
    if all_dec_digits(text) && dec_value(text) < modulus256() {
        Some(dec_value(text))
    } else {
        None
    }
}

/// The sell and buy amounts of a quote, read as decimal amounts in the
/// tokens' smallest units; none when either does not read.
pub fn quote_amounts(response: &KyberRouteResponse) -> (r: Option<(U256, U256)>)
    ensures
        match (
            dec_amount(response.data.route_summary.amount_in@),
            dec_amount(response.data.route_summary.amount_out@),
        ) {
            (Some(s), Some(b)) => r matches Some((x, y)) && x@ == s && y@ == b,
            _ => r is None,
        },
{
    let sell = match u256_from_dec_str(response.data.route_summary.amount_in.as_str()) {
        Some(v) => v,
        None => return None,
    };
    let buy = match u256_from_dec_str(response.data.route_summary.amount_out.as_str()) {
        Some(v) => v,
        None => return None,
    };
    Some((sell, buy))
}

/// The swap to build for a quote: the quoted sell and buy amounts, and the
/// build request for the quoted route.
pub struct SwapBuild {
    pub sell_amount: U256,
    pub buy_amount: U256,
    pub request: KyberBuildRequest,
}

/// What a successful quote leads to, at `now_secs` seconds since the Unix
/// epoch: nothing when an amount does not read; otherwise the quoted
/// amounts and a request to build the route for the settlement contract as
/// sender and recipient, valid for an hour, with 0.5% slippage.
pub fn quote_build(response: KyberRouteResponse, settlement: Address, now_secs: u64) -> (r: Option<SwapBuild>)
    requires
        now_secs + 3600 <= u64::MAX,
    ensures
        match (
            dec_amount(response.data.route_summary.amount_in@),
            dec_amount(response.data.route_summary.amount_out@),
        ) {
            (Some(s), Some(b)) => r matches Some(x) && {
                &&& x.sell_amount@ == s
                &&& x.buy_amount@ == b
                &&& same_route_summary(x.request.route_summary, response.data.route_summary)
                &&& x.request.sender@ == address_lower_hex(settlement@)
                &&& x.request.recipient@ == address_lower_hex(settlement@)
                &&& x.request.deadline == now_secs + 3600
                &&& x.request.slippage_tolerance == 50
            },
            _ => r is None,
        },
{
    let (sell_amount, buy_amount) = match quote_amounts(&response) {
        Some(a) => a,
        None => return None,
    };
    let settlement_text = settlement.to_lower_hex();
    let recipient = settlement.to_lower_hex();
    let request = build_swap_request(
        response.data.route_summary,
        settlement_text,
        recipient,
        now_secs + 3600,
        50,
    );
    Some(SwapBuild { sell_amount, buy_amount, request })
}

/// What fetching gave one quote request: the quote, if the API answered,
/// and the built swap, if it was asked for and succeeded.
pub struct FetchedSwap {
    pub quote: Option<KyberRouteResponse>,
    pub method: Option<MethodParameters>,
}

/// The quoted sell and buy amounts of a response, when both read.
pub open spec fn quoted_amounts(response: KyberRouteResponse) -> Option<(nat, nat)> {
    match (
        dec_amount(response.data.route_summary.amount_in@),
        dec_amount(response.data.route_summary.amount_out@),
    ) {
        (Some(s), Some(b)) => Some((s, b)),
        _ => None,
    }
}

/// Whether a quote request gives liquidity: its quote's amounts read and
/// are not zero, and its swap was built.
pub open spec fn offers_liquidity(f: FetchedSwap) -> bool {
    &&& f.quote matches Some(q)
    &&& quoted_amounts(q) matches Some((s, b))
    &&& s != 0
    &&& b != 0
    &&& f.method is Some
}

/// The positions, in order, of the first `n` requests that give liquidity.
pub open spec fn offering_positions(fetched: Seq<FetchedSwap>, n: nat) -> Seq<int>
    decreases n,
{
    if n == 0 {
        Seq::empty()
    } else {
        let before = offering_positions(fetched, (n - 1) as nat);
        if offers_liquidity(fetched[n - 1]) {
            before.push(n - 1)
        } else {
            before
        }
    }
}

/// Positions listed before `n` are below `n`, increasing, and at most `n`.
proof fn lemma_offering_positions(fetched: Seq<FetchedSwap>, n: nat)
    ensures
        forall|j: int|
            0 <= j < offering_positions(fetched, n).len() ==> 0 <= #[trigger] offering_positions(
                fetched,
                n,
            )[j] < n,
        forall|a: int, b: int|
            0 <= a < b < offering_positions(fetched, n).len() ==> offering_positions(fetched, n)[a]
                < offering_positions(fetched, n)[b],
        offering_positions(fetched, n).len() <= n,
    decreases n,
{
    if n > 0 {
        let prev = offering_positions(fetched, (n - 1) as nat);
        let cur = offering_positions(fetched, n);
        lemma_offering_positions(fetched, (n - 1) as nat);
        if offers_liquidity(fetched[n - 1]) {
            assert(cur == prev.push(n - 1));
            assert forall|j: int| 0 <= j < cur.len() implies 0 <= #[trigger] cur[j] < n by {
                if j < prev.len() {
                    assert(cur[j] == prev[j]);
                }
            }
            assert forall|a: int, b: int| 0 <= a < b < cur.len() implies cur[a] < cur[b] by {
                assert(cur[a] == prev[a]);
                if b < prev.len() {
                    assert(cur[b] == prev[b]);
                }
            }
        } else {
            assert(cur == prev);
        }
    }
}

/// Whether liquidity `l` is what request `i` gives: the limit order of its
/// built swap at its quoted amounts.
pub open spec fn offered_by(
    l: Liquidity,
    requests: Seq<QuoteRequest>,
    fetched: Seq<FetchedSwap>,
    i: int,
) -> bool {
    &&& 0 <= i < requests.len()
    &&& fetched[i].quote matches Some(q)
    &&& quoted_amounts(q) matches Some((s, b))
    &&& fetched[i].method matches Some(m)
    &&& exists|sell: U256, buy: U256|
        sell@ == s && buy@ == b && #[trigger] is_kyber_route_order(
            l,
            m,
            requests[i].token_in,
            requests[i].token_out,
            sell,
            buy,
        )
}

/// The liquidity of the quote requests from what was fetched for each:
/// every request whose quote reads with non-zero amounts and whose swap was
/// built gives its limit order, in the order of the requests.
pub fn assemble_liquidity(requests: &Vec<QuoteRequest>, fetched: Vec<FetchedSwap>) -> (r: Vec<Liquidity>)
    requires
        fetched@.len() == requests@.len(),
    ensures
        r@.len() == offering_positions(fetched@, fetched@.len()).len(),
        forall|j: int|
            0 <= j < r@.len() ==> offered_by(
                #[trigger] r@[j],
                requests@,
                fetched@,
                offering_positions(fetched@, fetched@.len())[j],
            ),
{
    let ghost all = fetched@;
    let mut rest = fetched;
    let mut out: Vec<Liquidity> = Vec::new();
    let mut i: usize = 0;
    while i < requests.len()
        invariant
            i <= requests@.len(),
            all.len() == requests@.len(),
            rest@ == all.subrange(i as int, all.len() as int),
            out@.len() == offering_positions(all, i as nat).len(),
            forall|j: int|
                0 <= j < out@.len() ==> offered_by(
                    #[trigger] out@[j],
                    requests@,
                    all,
                    offering_positions(all, i as nat)[j],
                ),
        decreases requests@.len() - i,
    {
        proof {
            lemma_offering_positions(all, i as nat);
        }
        let ghost before = out@;
        let ghost positions = offering_positions(all, i as nat);
        let ghost mut added: Option<Liquidity> = None;
        let f = rest.remove(0);
        proof {
            assert(f == all[i as int]);
            assert(rest@ =~= all.subrange(i + 1, all.len() as int));
        }
        let FetchedSwap { quote, method } = f;
        let mut offered = false;
        match quote {
            Some(q) => match quote_amounts(&q) {
                Some((sell, buy)) => match method {
                    Some(m) => {
                        let ghost mv = m;
                        match method_into_liquidity(m, requests[i].token_in, requests[i].token_out, sell, buy) {
                            Some(l) => {
                                proof {
                                    added = Some(l);
                                    assert(is_kyber_route_order(
                                        l,
                                        mv,
                                        requests@[i as int].token_in,
                                        requests@[i as int].token_out,
                                        sell,
                                        buy,
                                    ));
                                }
                                out.push(l);
                                offered = true;
                            },
                            None => {},
                        }
                    },
                    None => {},
                },
                None => {},
            },
            None => {},
        }
        proof {
            let next = offering_positions(all, (i + 1) as nat);
            assert(offered == offers_liquidity(all[i as int]));
            if offered {
                assert(next == positions.push(i as int));
            } else {
                assert(next == positions);
            }
            assert forall|j: int| 0 <= j < out@.len() implies offered_by(
                #[trigger] out@[j],
                requests@,
                all,
                next[j],
            ) by {
                if j < before.len() {
                    assert(out@[j] == before[j]);
                    assert(next[j] == positions[j]);
                } else {
                    assert(next[j] == i as int);
                    assert(out@[j] == added->0);
                }
            }
        }
        i = i + 1;
    }
    out
}

} // verus!
