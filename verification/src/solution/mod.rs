//! Solutions built directly from aggregator routes or vault trades: the
//! orders of an auction, their fulfillments, clearing prices and the
//! interactions that execute them.

pub mod hyperliquid;
pub mod kyberswap;

use crate::address::Address;
use crate::domain::Asset;
use crate::liquidity::OrderUid;
use crate::uint::U256;
use vstd::prelude::*;

verus! {

/// Whether an order fixes the amount it sells or the amount it buys.
#[derive(Clone, Copy, Debug, PartialEq, Eq)]
pub enum Side {
    Sell,
    Buy,
}

/// The class of an order.
#[derive(Clone, Copy, Debug, PartialEq, Eq)]
pub enum OrderClass {
    Market,
    Limit,
    Liquidity,
}

/// Whether an order may be filled partially, and how much is left.
#[derive(Clone, Copy, Debug, PartialEq, Eq)]
pub enum Partial {
    Yes { available: U256 },
    No,
}

/// An order of an auction.
#[derive(Clone, Copy, Debug, PartialEq, Eq)]
pub struct Order {
    pub uid: OrderUid,
    pub side: Side,
    pub kind: OrderClass,
    pub sell: Asset,
    pub buy: Asset,
    pub valid_to: u32,
    pub partial: Partial,
}

impl Order {
    /// Whether the solver determines the order's fee: for limit orders.
    pub fn solver_determines_fee(&self) -> (r: bool)
        ensures
            r == (self.kind == OrderClass::Limit),
    {
        match self.kind {
            OrderClass::Limit => true,
            _ => false,
        }
    }

    /// The amount the order fixes: the sell amount of a sell order, the buy
    /// amount of a buy order.
    pub fn target(&self) -> (r: U256)
        ensures
            r == (match self.side {
                Side::Sell => self.sell.amount,
                Side::Buy => self.buy.amount,
            }),
    {
        match self.side {
            Side::Sell => self.sell.amount,
            Side::Buy => self.buy.amount,
        }
    }
}

/// The address that stands for the native token: twenty 0xee bytes.
pub open spec fn native_token() -> Seq<u8> {
    Seq::new(20, |i: int| 0xeeu8)
}

/// The ERC-20 token that trades stand for: the wrapped native token for the
/// native token, any other token itself.
pub open spec fn as_erc20(token: Address, weth: Address) -> Address {
    if token@ == native_token() {
        weth
    } else {
        token
    }
}

/// The ERC-20 form of a token.
pub fn token_as_erc20(token: Address, weth: Address) -> (r: Address)
    ensures
        r == as_erc20(token, weth),
{
    let native = Address { bytes: [0xeeu8; 20] };
    proof {
        assert(native@ =~= native_token());
    }
    if token.same(&native) {
        weth
    } else {
        token
    }
}

/// How the fee of a trade is set.
#[derive(Clone, Copy, Debug, PartialEq, Eq)]
pub enum Fee {
    /// The order's own fee.
    Static,
    /// A fee the solver sets, in the sell token.
    Dynamic(U256),
}

/// The fee of a trade: a zero dynamic fee where the solver determines it,
/// the static fee otherwise.
pub fn trade_fee(order: &Order) -> (r: Fee)
    ensures
        order.kind == OrderClass::Limit ==> (r matches Fee::Dynamic(f) && f@ == 0),
        order.kind != OrderClass::Limit ==> r == Fee::Static,
{
    if order.solver_determines_fee() {
        Fee::Dynamic(U256::zero())
    } else {
        Fee::Static
    }
}

/// A trade that fills an order.
#[derive(Clone, Copy, Debug, PartialEq, Eq)]
pub struct Fulfillment {
    pub order: OrderUid,
    pub executed: U256,
    pub fee: Fee,
}

/// An allowance that an interaction needs.
#[derive(Clone, Copy, Debug, PartialEq, Eq)]
pub struct Allowance {
    pub token: Address,
    pub spender: Address,
    pub amount: U256,
}

/// A custom contract interaction of a solution, with the allowances it
/// needs and the assets it takes and gives.
#[derive(Clone, Debug, PartialEq, Eq)]
pub struct CustomInteraction {
    pub target: Address,
    pub value: U256,
    pub call_data: Vec<u8>,
    pub allowances: Vec<Allowance>,
    pub inputs: Vec<Asset>,
    pub outputs: Vec<Asset>,
    pub internalize: bool,
}

/// A solution: its identifier, trades, clearing prices, interactions and
/// gas estimate.
#[derive(Clone, Debug, PartialEq, Eq)]
pub struct Solution {
    pub id: u64,
    pub trades: Vec<Fulfillment>,
    pub prices: Vec<(Address, U256)>,
    pub interactions: Vec<CustomInteraction>,
    pub gas: Option<U256>,
}

/// The clearing prices of a list of (token, price) insertions: a later
/// insertion of a token replaces an earlier one.
pub open spec fn prices_map(v: Seq<(Address, U256)>) -> Map<Seq<u8>, nat>
    decreases v.len(),
{
    if v.len() == 0 {
        Map::empty()
    } else {
        prices_map(v.drop_last()).insert(v.last().0@, v.last().1@)
    }
}

/// The price recorded for a token, as a map lookup gives it.
pub fn price_of(prices: &Vec<(Address, U256)>, token: Address) -> (r: Option<U256>)
    ensures
        match r {
            Some(p) => prices_map(prices@).contains_key(token@) && prices_map(prices@)[token@]
                == p@,
            None => !prices_map(prices@).contains_key(token@),
        },
{
    let mut i: usize = prices.len();
    while i > 0
        invariant
            i <= prices@.len(),
            forall|j: int| i <= j < prices@.len() ==> prices@[j].0@ != token@,
        decreases i,
    {
        i = i - 1;
        if prices[i].0.same(&token) {
            proof {
                lemma_prices_map_last(prices@, i as int, token@);
            }
            return Some(prices[i].1);
        }
    }
    proof {
        lemma_prices_map_absent(prices@, token@);
    }
    None
}

/// The price of a token is that of its last insertion.
proof fn lemma_prices_map_last(v: Seq<(Address, U256)>, i: int, t: Seq<u8>)
    requires
        0 <= i < v.len(),
        v[i].0@ == t,
        forall|j: int| i < j < v.len() ==> v[j].0@ != t,
    ensures
        prices_map(v).contains_key(t),
        prices_map(v)[t] == v[i].1@,
    decreases v.len(),
{
    if i < v.len() - 1 {
        lemma_prices_map_last(v.drop_last(), i, t);
    }
}

/// A token never inserted has no price.
proof fn lemma_prices_map_absent(v: Seq<(Address, U256)>, t: Seq<u8>)
    requires
        forall|j: int| 0 <= j < v.len() ==> v[j].0@ != t,
    ensures
        !prices_map(v).contains_key(t),
    decreases v.len(),
{
    if v.len() > 0 {
        lemma_prices_map_absent(v.drop_last(), t);
    }
}

} // verus!
