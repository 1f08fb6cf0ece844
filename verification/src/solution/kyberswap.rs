//! Solutions built directly from KyberSwap routes: which route each order
//! asks for, whether a route satisfies the order, and the solution that a
//! built route gives.

use crate::address::Address;
use crate::domain::Asset;
use crate::kyberswap_api::{BuildRouteRequest, BuildRouteResponse, RouteSummary};
use crate::liquidity::kyber::dec_amount;
use crate::liquidity::kyberswap::build_route_request;
use crate::solution::{
    as_erc20, token_as_erc20, trade_fee, Allowance, CustomInteraction, Fee, Fulfillment, Order,
    OrderClass, Side, Solution,
};
use crate::text::{all_dec_digits, dec_value, decode_hex, hex_decode, strip_0x, strip_0x_str};
use crate::uint::{
    modulus256, u256_from_dec_str, u256_full_mul, u512_div, U256, U512,
};
use vstd::arithmetic::div_mod::{lemma_fundamental_div_mod, lemma_mod_bound};
use vstd::prelude::*;

verus! {

/// The token pair and amount of the route an order asks for: a sell order
/// sells its sell amount, a buy order looks up the route from its buy
/// token to its sell token for its buy amount; native tokens become the
/// wrapped token.
pub fn order_route(order: &Order, weth: Address) -> (r: (Address, Address, U256))
    ensures
        r == (match order.side {
            Side::Sell => (as_erc20(order.sell.token, weth), as_erc20(order.buy.token, weth), order.sell.amount),
            Side::Buy => (as_erc20(order.buy.token, weth), as_erc20(order.sell.token, weth), order.buy.amount),
        }),
{
    match order.side {
        Side::Sell => (
            token_as_erc20(order.sell.token, weth),
            token_as_erc20(order.buy.token, weth),
            order.sell.amount,
        ),
        Side::Buy => (
            token_as_erc20(order.buy.token, weth),
            token_as_erc20(order.sell.token, weth),
            order.buy.amount,
        ),
    }
}

/// Whether a route's output satisfies an order: a sell order needs at least
/// its buy amount, a buy order may not exceed its sell amount.
pub fn satisfies_order(route_amount_out: U256, order_amount_out: U256, side: Side) -> (r: bool)
    ensures
        r == (match side {
            Side::Sell => route_amount_out@ >= order_amount_out@,
            Side::Buy => route_amount_out@ <= order_amount_out@,
        }),
{
    match side {
        Side::Sell => order_amount_out.le(&route_amount_out),
        Side::Buy => route_amount_out.le(&order_amount_out),
    }
}

/// A decimal amount in a token's smallest unit, or zero when it does not
/// read.
pub open spec fn amount_or_zero(text: Seq<char>) -> nat {
    match dec_amount(text) {
        Some(v) => v,
        None => 0,
    }
}

/// The amount an order wants out of its route: the buy amount of a sell
/// order, the sell amount of a buy order.
pub open spec fn order_amount_out(order: Order) -> nat {
    match order.side {
        Side::Sell => order.buy.amount@,
        Side::Buy => order.sell.amount@,
    }
}

/// Whether a found route satisfies the order; the route's output is read
/// as a decimal amount in the token's smallest unit, zero when unreadable.
pub fn route_satisfies_order(order: &Order, route: &RouteSummary) -> (r: bool)
    ensures
        r == (match order.side {
            Side::Sell => amount_or_zero(route.amount_out@) >= order_amount_out(*order),
            Side::Buy => amount_or_zero(route.amount_out@) <= order_amount_out(*order),
        }),
{
    let route_amount_out = match u256_from_dec_str(route.amount_out.as_str()) {
        Some(v) => v,
        None => U256::zero(),
    };
    let order_out = match order.side {
        Side::Sell => order.buy.amount,
        Side::Buy => order.sell.amount,
    };
    satisfies_order(route_amount_out, order_out, order.side)
}

/// The build request of a route found at `now_secs` seconds since the Unix
/// epoch for the settlement contract: 0.5% slippage, valid for five
/// minutes.
pub fn solution_build_request(route: RouteSummary, settlement_contract: Address, now_secs: u64) -> (r:
    BuildRouteRequest)
    requires
        now_secs + 300 <= u64::MAX,
    ensures
        r == (BuildRouteRequest {
            route_summary: route,
            slippage: 50,
            sender: settlement_contract,
            recipient: settlement_contract,
            deadline: (now_secs + 300) as u64,
        }),
{
    build_route_request(route, 50, settlement_contract, now_secs + 300)
}

/// Why a route gives no solution.
#[derive(Clone, Debug, PartialEq, Eq)]
pub enum SolutionError {
    /// An amount of the route does not read.
    InvalidAmount,
    /// The buy token's price does not fit in 256 bits.
    PriceOverflow,
    /// The built calldata is not hexadecimal.
    InvalidCalldata(String),
}

/// The price given to the sell token, 10^18.
pub open spec fn base_price() -> nat {
    1_000_000_000_000_000_000
}

/// The buy token's price: the base price divided by the route's rate
/// `amount_out / amount_in`, rounded down.
pub open spec fn buy_price(amount_in: nat, amount_out: nat) -> nat {
    base_price() * amount_in / amount_out
}

/// The clearing prices balance the route's trade up to rounding: the
/// output valued at the buy token's price is at most the input valued at
/// the base price, and less than one unit of the buy price short of it.
pub proof fn lemma_clearing_prices_balance(amount_in: nat, amount_out: nat)
    requires
        amount_out > 0,
    ensures
        amount_out * buy_price(amount_in, amount_out) <= amount_in * base_price(),
        amount_in * base_price() < amount_out * (buy_price(amount_in, amount_out) + 1),
{
    let n = base_price() * amount_in;
    let q = n / amount_out;
    lemma_fundamental_div_mod(n as int, amount_out as int);
    lemma_mod_bound(n as int, amount_out as int);
    assert(amount_in * base_price() == n) by (nonlinear_arith)
        requires
            n == base_price() * amount_in,
    ;
    let r = n % amount_out;
    assert(n == amount_out * q + r);
    assert(amount_out * q <= n);
    assert(amount_out * (q + 1) == amount_out * q + amount_out) by (nonlinear_arith);
    assert(n < amount_out * (q + 1));
}

/// Whether the route's amounts, when they read, are both non-zero; a zero
/// rate or a zero input makes the rational arithmetic panic.
pub open spec fn rate_defined(route: RouteSummary) -> bool {
    match (dec_amount(route.amount_out@), dec_amount(route.amount_in@)) {
        (Some(o), Some(i)) => o != 0 && i != 0,
        _ => true,
    }
}

/// Clearing prices from a route: the sell token at 10^18, the buy token at
/// 10^18 divided by the route's rate (inserted after the sell token).
/// Amounts are read as decimal amounts in the tokens' smallest units.
pub fn calculate_prices(route: &RouteSummary, order: &Order) -> (r: Result<Vec<(Address, U256)>, SolutionError>)
    requires
        rate_defined(*route),
    ensures
        (dec_amount(route.amount_out@) is None || dec_amount(route.amount_in@) is None) ==> r
            == Err::<Vec<(Address, U256)>, SolutionError>(SolutionError::InvalidAmount),
        (dec_amount(route.amount_out@) is Some && dec_amount(route.amount_in@) is Some) ==> ({
            let i = dec_amount(route.amount_in@)->0;
            let o = dec_amount(route.amount_out@)->0;
            if buy_price(i, o) < modulus256() {
                r matches Ok(v) && v@.len() == 2 && v@[0].0 == order.sell.token && v@[0].1@
                    == base_price() && v@[1].0 == order.buy.token && v@[1].1@ == buy_price(i, o)
            } else {
                r == Err::<Vec<(Address, U256)>, SolutionError>(SolutionError::PriceOverflow)
            }
        }),
{
    let amount_out = match u256_from_dec_str(route.amount_out.as_str()) {
        Some(v) => v,
        None => return Err(SolutionError::InvalidAmount),
    };
    let amount_in = match u256_from_dec_str(route.amount_in.as_str()) {
        Some(v) => v,
        None => return Err(SolutionError::InvalidAmount),
    };
    let sell_price = U256::from_u64(1_000_000_000_000_000_000u64);
    let numerator = u256_full_mul(sell_price, amount_in);
    let quotient = u512_div(numerator, U512::widen(amount_out));
    let buy = match quotient.narrow() {
        Some(v) => v,
        None => return Err(SolutionError::PriceOverflow),
    };
    let mut prices: Vec<(Address, U256)> = Vec::new();
    prices.push((order.sell.token, sell_price));
    prices.push((order.buy.token, buy));
    Ok(prices)
}

/// The executed amount that a route gives an order: the route's input for a
/// sell order, its output for a buy order, read as decimal.
pub open spec fn executed_text(order: Order, route: RouteSummary) -> Seq<char> {
    match order.side {
        Side::Sell => route.amount_in@,
        Side::Buy => route.amount_out@,
    }
}

/// Whether a text is a decimal amount that fits in 256 bits.
pub open spec fn dec_amount_ok(text: Seq<char>) -> bool {
    all_dec_digits(text) && dec_value(text) < modulus256()
}

/// Whether a built route gives an order a solution: the executed amount
/// reads as decimal, both route amounts read as decimal, the buy price fits
/// in 256 bits and the calldata is hexadecimal.
pub open spec fn plan_ok(order: Order, route: RouteSummary, build: BuildRouteResponse) -> bool {
    &&& dec_amount_ok(executed_text(order, route))
    &&& dec_amount(route.amount_out@) is Some
    &&& dec_amount(route.amount_in@) is Some
    &&& buy_price(dec_amount(route.amount_in@)->0, dec_amount(route.amount_out@)->0) < modulus256()
    &&& hex_decode(strip_0x(build.encoded_data@)) is Some
}

/// Whether `s` is the solution that a built route gives an order, with the
/// given identifier.
pub open spec fn is_planned_solution(
    s: Solution,
    order: Order,
    route: RouteSummary,
    build: BuildRouteResponse,
    solution_id: u64,
) -> bool {
    let i = dec_amount(route.amount_in@)->0;
    let o = dec_amount(route.amount_out@)->0;
    &&& s.id == solution_id
    &&& s.trades@.len() == 1
    &&& s.trades@[0].order == order.uid
    &&& s.trades@[0].executed@ == dec_value(executed_text(order, route))
    &&& (order.kind == OrderClass::Limit ==> (s.trades@[0].fee matches Fee::Dynamic(f) && f@ == 0))
    &&& (order.kind != OrderClass::Limit ==> s.trades@[0].fee == Fee::Static)
    &&& s.prices@.len() == 2
    &&& s.prices@[0].0 == order.sell.token && s.prices@[0].1@ == base_price()
    &&& s.prices@[1].0 == order.buy.token && s.prices@[1].1@ == buy_price(i, o)
    &&& s.interactions@.len() == 1
    &&& s.interactions@[0].target == build.router_address
    &&& s.interactions@[0].value == build.value
    &&& s.interactions@[0].call_data@ == hex_decode(strip_0x(build.encoded_data@))->0
    &&& s.interactions@[0].allowances@ == seq![Allowance {
        token: order.sell.token,
        spender: build.router_address,
        amount: s.interactions@[0].allowances@[0].amount,
    }]
    &&& s.interactions@[0].allowances@[0].amount@ == modulus256() - 1
    &&& s.interactions@[0].inputs@.len() == 1
    &&& s.interactions@[0].inputs@[0].token == order.sell.token
    &&& s.interactions@[0].inputs@[0].amount@ == i
    &&& s.interactions@[0].outputs@.len() == 1
    &&& s.interactions@[0].outputs@[0].token == order.buy.token
    &&& s.interactions@[0].outputs@[0].amount@ == o
    &&& !s.interactions@[0].internalize
    &&& (s.gas matches Some(g) && g@ == amount_or_zero(route.gas@))
}

/// The solution that a built route gives an order, with the given
/// identifier: one trade filling the order, the route's clearing prices, and
/// one router call that may spend any amount of the sell token, takes the
/// route's input and gives its output; gas is the route's estimate (read as
/// decimal, zero when unreadable).
pub fn plan_solution(
    order: &Order,
    route: &RouteSummary,
    build: &BuildRouteResponse,
    solution_id: u64,
) -> (r: Result<Solution, SolutionError>)
    requires
        rate_defined(*route),
    ensures
        !dec_amount_ok(executed_text(*order, *route)) ==> r == Err::<Solution, SolutionError>(
            SolutionError::InvalidAmount,
        ),
        r is Ok <==> plan_ok(*order, *route, *build),
        r matches Ok(s) ==> is_planned_solution(s, *order, *route, *build, solution_id),
{
    let executed_source = match order.side {
        Side::Sell => route.amount_in.as_str(),
        Side::Buy => route.amount_out.as_str(),
    };
    let executed = match u256_from_dec_str(executed_source) {
        Some(v) => v,
        None => return Err(SolutionError::InvalidAmount),
    };
    let fee = trade_fee(order);
    let prices = calculate_prices(route, order)?;
    let stripped = strip_0x_str(build.encoded_data.as_str());
    let call_data = match decode_hex(stripped.as_str()) {
        Ok(v) => v,
        Err(e) => return Err(SolutionError::InvalidCalldata(e)),
    };
    let amount_in = match u256_from_dec_str(route.amount_in.as_str()) {
        Some(v) => v,
        None => return Err(SolutionError::InvalidAmount),
    };
    let amount_out = match u256_from_dec_str(route.amount_out.as_str()) {
        Some(v) => v,
        None => return Err(SolutionError::InvalidAmount),
    };
    let gas = match u256_from_dec_str(route.gas.as_str()) {
        Some(v) => v,
        None => U256::zero(),
    };
    let mut allowances: Vec<Allowance> = Vec::new();
    allowances.push(
        Allowance { token: order.sell.token, spender: build.router_address, amount: U256::max_value() },
    );
    let mut inputs: Vec<Asset> = Vec::new();
    inputs.push(Asset { token: order.sell.token, amount: amount_in });
    let mut outputs: Vec<Asset> = Vec::new();
    outputs.push(Asset { token: order.buy.token, amount: amount_out });
    let interaction = CustomInteraction {
        target: build.router_address,
        value: build.value,
        call_data,
        allowances,
        inputs,
        outputs,
        internalize: false,
    };
    let mut trades: Vec<Fulfillment> = Vec::new();
    trades.push(Fulfillment { order: order.uid, executed, fee });
    let mut interactions: Vec<CustomInteraction> = Vec::new();
    interactions.push(interaction);
    proof {
        assert(allowances@ =~= seq![Allowance {
            token: order.sell.token,
            spender: build.router_address,
            amount: allowances@[0].amount,
        }]);
    }
    Ok(Solution { id: solution_id, trades, prices, interactions, gas: Some(gas) })
}

/// Whether a route's output satisfies an order: at least the buy amount of
/// a sell order, at most the sell amount of a buy order (the route's output
/// read as decimal, zero when unreadable).
pub open spec fn route_satisfies(order: Order, route: RouteSummary) -> bool {
    match order.side {
        Side::Sell => amount_or_zero(route.amount_out@) >= order_amount_out(order),
        Side::Buy => amount_or_zero(route.amount_out@) <= order_amount_out(order),
    }
}

/// What fetching gave one order: its route, if the lookup found one, and
/// the route's build, if it was asked for and succeeded.
#[derive(Clone, Debug, PartialEq, Eq)]
pub struct FetchedRoute {
    pub route: Option<RouteSummary>,
    pub build: Option<BuildRouteResponse>,
}

/// Whether an order gets a solution from what was fetched for it: a route
/// that satisfies it, built, that gives a solution.
pub open spec fn plannable(order: Order, fetched: FetchedRoute) -> bool {
    &&& fetched.route matches Some(route)
    &&& route_satisfies(order, route)
    &&& fetched.build matches Some(build)
    &&& plan_ok(order, route, build)
}

/// The positions, in order, of the first `n` orders that get a solution.
pub open spec fn plannable_positions(orders: Seq<Order>, fetched: Seq<FetchedRoute>, n: nat) -> Seq<int>
    decreases n,
{
    if n == 0 {
        Seq::empty()
    } else {
        let before = plannable_positions(orders, fetched, (n - 1) as nat);
        if plannable(orders[n - 1], fetched[n - 1]) {
            before.push(n - 1)
        } else {
            before
        }
    }
}

/// Whether a fetched route that would be planned has a defined rate.
pub open spec fn fetched_rate_defined(order: Order, fetched: FetchedRoute) -> bool {
    match fetched.route {
        Some(route) => route_satisfies(order, route) && fetched.build is Some ==> rate_defined(route),
        None => true,
    }
}

/// Positions listed before `n` are below `n` and increasing.
proof fn lemma_plannable_positions(orders: Seq<Order>, fetched: Seq<FetchedRoute>, n: nat)
    ensures
        forall|j: int|
            0 <= j < plannable_positions(orders, fetched, n).len() ==> 0 <= #[trigger] plannable_positions(
                orders,
                fetched,
                n,
            )[j] < n,
        forall|a: int, b: int|
            0 <= a < b < plannable_positions(orders, fetched, n).len() ==> plannable_positions(
                orders,
                fetched,
                n,
            )[a] < plannable_positions(orders, fetched, n)[b],
        plannable_positions(orders, fetched, n).len() <= n,
    decreases n,
{
    if n > 0 {
        let prev = plannable_positions(orders, fetched, (n - 1) as nat);
        let cur = plannable_positions(orders, fetched, n);
        lemma_plannable_positions(orders, fetched, (n - 1) as nat);
        if plannable(orders[n - 1], fetched[n - 1]) {
            assert(cur == prev.push(n - 1));
            assert forall|j: int| 0 <= j < cur.len() implies 0 <= #[trigger] cur[j] < n by {
                if j < prev.len() {
                    assert(cur[j] == prev[j]);
                }
            }
            assert forall|a: int, b: int| 0 <= a < b < cur.len() implies cur[a] < cur[b] by {
                assert(cur[a] == prev[a]);
                if b < prev.len() {
                    assert(cur[b] == prev[b]);
                }
            }
        } else {
            assert(cur == prev);
        }
    }
}

/// Whether solution `s`, numbered `j`, is the one that what was fetched for
/// order `i` gives it.
pub open spec fn planned_from(s: Solution, orders: Seq<Order>, fetched: Seq<FetchedRoute>, i: int, j: int) -> bool {
    &&& 0 <= i < orders.len()
    &&& fetched[i].route matches Some(route)
    &&& fetched[i].build matches Some(build)
    &&& is_planned_solution(s, orders[i], route, build, j as u64)
}

/// The solutions of an auction's orders from what was fetched for each:
/// every order with a satisfying, built route that gives a solution gets
/// one, in the order of the auction, numbered from zero.
pub fn assemble_solutions(orders: &Vec<Order>, fetched: &Vec<FetchedRoute>) -> (r: Vec<Solution>)
    requires
        fetched@.len() == orders@.len(),
        forall|i: int|
            0 <= i < orders@.len() ==> fetched_rate_defined(#[trigger] orders@[i], fetched@[i]),
    ensures
        r@.len() == plannable_positions(orders@, fetched@, orders@.len()).len(),
        forall|j: int|
            0 <= j < r@.len() ==> planned_from(
                #[trigger] r@[j],
                orders@,
                fetched@,
                plannable_positions(orders@, fetched@, orders@.len())[j],
                j,
            ),
{
    let mut solutions: Vec<Solution> = Vec::new();
    let mut counter: u64 = 0;
    let mut i: usize = 0;
    while i < orders.len()
        invariant
            i <= orders@.len(),
            fetched@.len() == orders@.len(),
            forall|k: int|
                0 <= k < orders@.len() ==> fetched_rate_defined(#[trigger] orders@[k], fetched@[k]),
            counter == solutions@.len(),
            solutions@.len() <= i,
            solutions@.len() == plannable_positions(orders@, fetched@, i as nat).len(),
            forall|j: int|
                0 <= j < solutions@.len() ==> planned_from(
                    #[trigger] solutions@[j],
                    orders@,
                    fetched@,
                    plannable_positions(orders@, fetched@, i as nat)[j],
                    j,
                ),
        decreases orders@.len() - i,
    {
        proof {
            lemma_plannable_positions(orders@, fetched@, i as nat);
        }
        let ghost before = solutions@;
        let ghost positions = plannable_positions(orders@, fetched@, i as nat);
        let ghost mut added: Option<(Solution, RouteSummary, BuildRouteResponse)> = None;
        let order = &orders[i];
        let f = &fetched[i];
        let mut planned = false;
        match (&f.route, &f.build) {
            (Some(route), Some(build)) => {
                if route_satisfies_order(order, route) {
                    match plan_solution(order, route, build, counter) {
                        Ok(solution) => {
                            proof {
                                assert((before.len() as int) as u64 == counter);
                                added = Some((solution, *route, *build));
                            }
                            solutions.push(solution);
                            counter = counter + 1;
                            planned = true;
                        },
                        Err(_) => {},
                    }
                }
            },
            _ => {},
        }
        proof {
            let next = plannable_positions(orders@, fetched@, (i + 1) as nat);
            assert(planned == plannable(orders@[i as int], fetched@[i as int]));
            if planned {
                assert(next == positions.push(i as int));
            } else {
                assert(next == positions);
            }
            assert forall|j: int| 0 <= j < solutions@.len() implies planned_from(
                #[trigger] solutions@[j],
                orders@,
                fetched@,
                next[j],
                j,
            ) by {
                if j < before.len() {
                    assert(solutions@[j] == before[j]);
                    assert(next[j] == positions[j]);
                } else {
                    let (sol, rt, bd) = added->0;
                    assert(next[j] == i as int);
                    assert(solutions@[j] == sol);
                    assert(fetched@[i as int].route == Some(rt));
                    assert(fetched@[i as int].build == Some(bd));
                    assert(is_planned_solution(sol, orders@[i as int], rt, bd, j as u64));
                }
            }
        }
        i = i + 1;
    }
    solutions
}

} // verus!
