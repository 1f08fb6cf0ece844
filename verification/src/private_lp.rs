//! The private-liquidity solver: every order of an auction is traded
//! against a vault at placeholder prices, with a signed `exchange` call.

use crate::abi::{keccak256, keccak256_spec};
use crate::address::Address;
use crate::domain::Asset;
use crate::liquidity::OrderUid;
use crate::signing::{parse_key_spec, parse_private_key, valid_secret};
use crate::solution::hyperliquid::{
    exchange_calldata, exchange_calldata_spec, lemma_exchange_call_terms, sign_trade, trade_signature,
    vault_exchange_selector, TradeTerms, VaultTrade,
};
use crate::abi::{address_word, call_word, word};
use crate::solution::{price_of, prices_map, Allowance, CustomInteraction};
use crate::uint::{modulus256, u256_div, u256_mul, U256};
use vstd::prelude::*;

verus! {

/// Whether an auction order sells or buys a fixed amount.
#[derive(Clone, Copy, Debug, PartialEq, Eq)]
pub enum Kind {
    Sell,
    Buy,
}

/// The class of an auction order.
#[derive(Clone, Copy, Debug, PartialEq, Eq)]
pub enum Class {
    Market,
    Limit,
}

/// An order of an auction, as the solver receives it.
#[derive(Clone, Copy, Debug, PartialEq, Eq)]
pub struct AuctionOrder {
    pub uid: OrderUid,
    pub sell_token: Address,
    pub buy_token: Address,
    pub sell_amount: U256,
    pub buy_amount: U256,
    pub kind: Kind,
    pub class: Class,
    pub valid_to: u32,
}

/// An auction: its identifier (none for quotes) and its orders.
#[derive(Clone, Debug, PartialEq, Eq)]
pub struct Auction {
    pub id: Option<i64>,
    pub orders: Vec<AuctionOrder>,
}

/// A trade of a solution: the order, the executed amount, and the fee
/// (none for the order's own fee).
#[derive(Clone, Copy, Debug, PartialEq, Eq)]
pub struct Fulfillment {
    pub order: OrderUid,
    pub executed_amount: U256,
    pub fee: Option<U256>,
}

/// A solution as the solver answers it.
#[derive(Clone, Debug, PartialEq, Eq)]
pub struct Solution {
    pub id: u64,
    /// Clearing prices as insertions in order; read as a map, a later
    /// insertion of a token replaces an earlier one.
    pub prices: Vec<(Address, U256)>,
    pub trades: Vec<Fulfillment>,
    pub interactions: Vec<CustomInteraction>,
    pub gas: Option<u64>,
}

/// The solver's configuration.
#[derive(Clone, Debug, PartialEq, Eq)]
pub struct SolverConfig {
    pub settlement_contract: Address,
    pub vault_address: Address,
    pub solver_private_key: String,
    pub chain_id: u64,
}

/// The solver with its signing key, which is always a valid secret key.
#[derive(Debug)]
pub struct HyperLiquidSolver {
    config: SolverConfig,
    key: [u8; 32],
}

/// Why an order gets no solution.
#[derive(Clone, Copy, Debug, PartialEq, Eq)]
pub enum SolveError {
    /// The configured private key is not a valid key.
    InvalidKey,
    /// No price for the token that the order sells.
    MissingSellPrice,
    /// No price for the token that the order buys.
    MissingBuyPrice,
    /// The signer reported an error.
    SigningFailed,
}

/// The placeholder price of every token, 10^20.
pub open spec fn placeholder_price() -> nat {
    100_000_000_000_000_000_000
}

/// Whether `v` inserts, for each order in turn, its sell token and then its
/// buy token, each at the placeholder price. Read as a map (later entries
/// win), it prices every token of the auction at 10^20.
pub open spec fn are_placeholder_prices(auction: Auction, v: Seq<(Address, U256)>) -> bool {
    &&& v.len() == 2 * auction.orders@.len()
    &&& forall|i: int|
        0 <= i < auction.orders@.len() ==> (#[trigger] v[2 * i]).0 == auction.orders@[i].sell_token
            && v[2 * i + 1].0 == auction.orders@[i].buy_token
    &&& forall|j: int| 0 <= j < v.len() ==> (#[trigger] v[j]).1@ == placeholder_price()
}

/// Placeholder prices: 10^20 for the sell and buy token of every order.
pub fn fake_prices(auction: &Auction) -> (r: Vec<(Address, U256)>)
    ensures
        are_placeholder_prices(*auction, r@),
{
    let price = U256::from_u128(100_000_000_000_000_000_000u128);
    let mut prices: Vec<(Address, U256)> = Vec::new();
    let mut i: usize = 0;
    while i < auction.orders.len()
        invariant
            i <= auction.orders@.len(),
            price@ == placeholder_price(),
            prices@.len() == 2 * i,
            forall|j: int|
                0 <= j < prices@.len() ==> #[trigger] prices@[j] == (if j % 2 == 0 {
                    (auction.orders@[j / 2].sell_token, price)
                } else {
                    (auction.orders@[j / 2].buy_token, price)
                }),
        decreases auction.orders@.len() - i,
    {
        let ghost before = prices@;
        prices.push((auction.orders[i].sell_token, price));
        prices.push((auction.orders[i].buy_token, price));
        proof {
            assert forall|j: int| 0 <= j < prices@.len() implies #[trigger] prices@[j] == (if j % 2
                == 0 {
                (auction.orders@[j / 2].sell_token, price)
            } else {
                (auction.orders@[j / 2].buy_token, price)
            }) by {
                if j < before.len() {
                    assert(prices@[j] == before[j]);
                } else {
                    assert(j / 2 == i);
                }
            }
        }
        i = i + 1;
    }
    proof {
        assert forall|k: int| 0 <= k < auction.orders@.len() implies (#[trigger] prices@[2 * k]).0
            == auction.orders@[k].sell_token && prices@[2 * k + 1].0
            == auction.orders@[k].buy_token by {
            assert((2 * k) % 2 == 0 && (2 * k) / 2 == k);
            assert((2 * k + 1) % 2 == 1 && (2 * k + 1) / 2 == k);
            assert(prices@[2 * k + 1] == (auction.orders@[k].buy_token, price));
        }
        assert forall|j: int| 0 <= j < prices@.len() implies (#[trigger] prices@[j]).1@
            == placeholder_price() by {
            assert(prices@[j] == (if j % 2 == 0 {
                (auction.orders@[j / 2].sell_token, price)
            } else {
                (auction.orders@[j / 2].buy_token, price)
            }));
        }
    }
    prices
}

/// Every token listed in placeholder prices has the placeholder price.
proof fn lemma_placeholder_prices(v: Seq<(Address, U256)>, t: Seq<u8>)
    requires
        forall|j: int| 0 <= j < v.len() ==> (#[trigger] v[j]).1@ == placeholder_price(),
        prices_map(v).contains_key(t),
    ensures
        prices_map(v)[t] == placeholder_price(),
    decreases v.len(),
{
    if v.len() > 0 && v.last().0@ != t {
        let u = v.drop_last();
        assert forall|j: int| 0 <= j < u.len() implies (#[trigger] u[j]).1@ == placeholder_price() by {
            assert(u[j] == v[j]);
        }
        lemma_placeholder_prices(u, t);
    }
}

/// A token has a price exactly when some entry names it.
proof fn lemma_prices_map_keys(v: Seq<(Address, U256)>, t: Seq<u8>)
    ensures
        prices_map(v).contains_key(t) <==> exists|j: int| 0 <= j < v.len() && (#[trigger] v[j]).0@ == t,
    decreases v.len(),
{
    if v.len() > 0 {
        let u = v.drop_last();
        lemma_prices_map_keys(u, t);
        if prices_map(u).contains_key(t) {
            let j = choose|j: int| 0 <= j < u.len() && (#[trigger] u[j]).0@ == t;
            assert(v[j] == u[j]);
        }
        if exists|j: int| 0 <= j < v.len() && (#[trigger] v[j]).0@ == t {
            let j = choose|j: int| 0 <= j < v.len() && (#[trigger] v[j]).0@ == t;
            if j < v.len() - 1 {
                assert(u[j] == v[j]);
            }
        }
    }
}

/// Whether some order of the auction sells or buys the token.
pub open spec fn lists_token(auction: Auction, t: Seq<u8>) -> bool {
    exists|i: int|
        0 <= i < auction.orders@.len() && ((#[trigger] auction.orders@[i]).sell_token@ == t
            || auction.orders@[i].buy_token@ == t)
}

/// The placeholder prices of an auction price exactly the tokens that its
/// orders sell or buy, each at the placeholder price.
proof fn lemma_fake_prices(auction: Auction, v: Seq<(Address, U256)>, t: Seq<u8>)
    requires
        are_placeholder_prices(auction, v),
    ensures
        prices_map(v).contains_key(t) <==> lists_token(auction, t),
        prices_map(v).contains_key(t) ==> prices_map(v)[t] == placeholder_price(),
{
    lemma_prices_map_keys(v, t);
    if prices_map(v).contains_key(t) {
        lemma_placeholder_prices(v, t);
        let j = choose|j: int| 0 <= j < v.len() && (#[trigger] v[j]).0@ == t;
        let i = j / 2;
        assert(v[2 * i].0 == auction.orders@[i].sell_token);
        assert(j == 2 * i || j == 2 * i + 1);
        assert(auction.orders@[i].sell_token@ == t || auction.orders@[i].buy_token@ == t);
    }
    if lists_token(auction, t) {
        let i = choose|i: int|
            0 <= i < auction.orders@.len() && ((#[trigger] auction.orders@[i]).sell_token@ == t
                || auction.orders@[i].buy_token@ == t);
        assert(v[2 * i].0 == auction.orders@[i].sell_token);
        if auction.orders@[i].sell_token@ == t {
            assert(v[2 * i].0@ == t);
        } else {
            assert(v[2 * i + 1].0@ == t);
        }
    }
}

/// The input side of an order's vault trade: a sell order puts in its sell
/// amount of its sell token, a buy order its buy amount of its buy token.
pub open spec fn trade_input(o: AuctionOrder) -> (Address, U256, Address) {
    match o.kind {
        Kind::Sell => (o.sell_token, o.sell_amount, o.buy_token),
        Kind::Buy => (o.buy_token, o.buy_amount, o.sell_token),
    }
}

/// Whether the input amount times the placeholder price fits in 256 bits;
/// `U256`'s multiplication panics otherwise.
pub open spec fn fits_pricing(o: AuctionOrder) -> bool {
    trade_input(o).1@ * placeholder_price() < modulus256()
}

/// The terms of the vault trade of an order.
pub open spec fn private_trade_terms(o: AuctionOrder, nonce: nat) -> TradeTerms {
    let (token_in, amount_in, token_out) = trade_input(o);
    TradeTerms {
        order_id: keccak256_spec(o.uid.bytes@),
        token_in: token_in@,
        amount_in: amount_in@,
        token_out: token_out@,
        amount_out: amount_in@,
        valid_to: o.valid_to as nat,
        nonce,
    }
}

/// What the solver's key gives the vault trade of an order with a nonce
/// when it signs it: a signature, or none where the signer fails.
pub open spec fn private_signature(solver: HyperLiquidSolver, o: AuctionOrder, nonce: u64) -> Option<Seq<u8>> {
    trade_signature(
        solver.key_spec(),
        private_trade_terms(o, nonce as nat),
        solver.config_spec().chain_id as nat,
        solver.config_spec().vault_address@,
        solver.config_spec().settlement_contract@,
    )
}

/// Whether `s` is the solution of order `o` with identifier `id`: the order
/// filled at its input amount, a zero fee unless the auction is a quote,
/// and the signed vault trade that returns the input amount (the prices of
/// both tokens being equal) while the vault may spend any amount of the
/// sell token.
pub open spec fn is_order_solution(
    s: Solution,
    solver: HyperLiquidSolver,
    auction_id: Option<i64>,
    prices: Seq<(Address, U256)>,
    o: AuctionOrder,
    id: u64,
    nonce: u64,
) -> bool {
    let (token_in, amount_in, token_out) = trade_input(o);
    let terms = private_trade_terms(o, nonce as nat);
    &&& terms.order_id.len() == 32
    &&& private_signature(solver, o, nonce) matches Some(sig) && s.interactions@[0].call_data@
        == exchange_calldata_spec(terms, sig)
    &&& s.id == id
    &&& s.prices@ == prices
    &&& s.trades@.len() == 1
    &&& s.trades@[0].order == o.uid
    &&& s.trades@[0].executed_amount == amount_in
    &&& (auction_id is None ==> s.trades@[0].fee is None)
    &&& (auction_id is Some ==> (s.trades@[0].fee matches Some(f) && f@ == 0))
    &&& s.interactions@.len() == 1
    &&& s.interactions@[0].target == solver.config_spec().vault_address
    &&& s.interactions@[0].value@ == 0
    &&& s.interactions@[0].allowances@.len() == 1
    &&& s.interactions@[0].allowances@[0].token == o.sell_token
    &&& s.interactions@[0].allowances@[0].spender == solver.config_spec().vault_address
    &&& s.interactions@[0].allowances@[0].amount@ == modulus256() - 1
    &&& s.interactions@[0].inputs@ == seq![Asset { token: token_in, amount: amount_in }]
    &&& s.interactions@[0].outputs@.len() == 1
    &&& s.interactions@[0].outputs@[0].token == token_out
    &&& s.interactions@[0].outputs@[0].amount@ == amount_in@
    &&& !s.interactions@[0].internalize
    &&& s.gas == Some(250_000u64)
}


/// The vault call of an order's solution trades what the order puts in
/// one for one: a sell order's sell amount of its sell token for the same
/// amount of its buy token, a buy order's buy amount of its buy token for
/// the same amount of its sell token; the tokens and amounts are those of
/// the interaction's input and output.
pub proof fn lemma_order_solution_call(
    s: Solution,
    solver: HyperLiquidSolver,
    auction_id: Option<i64>,
    prices: Seq<(Address, U256)>,
    o: AuctionOrder,
    id: u64,
    nonce: u64,
)
    requires
        is_order_solution(s, solver, auction_id, prices, o, id, nonce),
    ensures
        o.kind == Kind::Sell ==> call_word(s.interactions@[0].call_data@, vault_exchange_selector(), 1)
            == address_word(o.sell_token@) && call_word(
            s.interactions@[0].call_data@,
            vault_exchange_selector(),
            3,
        ) == address_word(o.buy_token@) && call_word(
            s.interactions@[0].call_data@,
            vault_exchange_selector(),
            2,
        ) == word(o.sell_amount@) && call_word(
            s.interactions@[0].call_data@,
            vault_exchange_selector(),
            4,
        ) == word(o.sell_amount@),
        o.kind == Kind::Buy ==> call_word(s.interactions@[0].call_data@, vault_exchange_selector(), 1)
            == address_word(o.buy_token@) && call_word(
            s.interactions@[0].call_data@,
            vault_exchange_selector(),
            3,
        ) == address_word(o.sell_token@) && call_word(
            s.interactions@[0].call_data@,
            vault_exchange_selector(),
            2,
        ) == word(o.buy_amount@) && call_word(
            s.interactions@[0].call_data@,
            vault_exchange_selector(),
            4,
        ) == word(o.buy_amount@),
        call_word(s.interactions@[0].call_data@, vault_exchange_selector(), 1) == address_word(
            s.interactions@[0].inputs@[0].token@,
        ),
        call_word(s.interactions@[0].call_data@, vault_exchange_selector(), 2) == word(
            s.interactions@[0].inputs@[0].amount@,
        ),
        call_word(s.interactions@[0].call_data@, vault_exchange_selector(), 3) == address_word(
            s.interactions@[0].outputs@[0].token@,
        ),
        call_word(s.interactions@[0].call_data@, vault_exchange_selector(), 4) == word(
            s.interactions@[0].outputs@[0].amount@,
        ),
{
    let terms = private_trade_terms(o, nonce as nat);
    let sig = private_signature(solver, o, nonce)->0;
    lemma_exchange_call_terms(
        terms,
        sig,
        0,
        solver.config_spec().vault_address,
        solver.config_spec().settlement_contract,
    );
}

/// The error for a token without a price: the sell or the buy price is
/// missing, by the side of the order the token is on.
pub open spec fn missing_price(kind: Kind, input_side: bool) -> SolveError {
    match (kind, input_side) {
        (Kind::Sell, true) | (Kind::Buy, false) => SolveError::MissingSellPrice,
        _ => SolveError::MissingBuyPrice,
    }
}

/// What `create_solution_with_nonce` answers for an order: an error when a
/// token of its trade has no price, else the order's solution when the
/// signer signs its trade, and the signing error when it fails.
pub open spec fn solution_outcome(
    r: Result<Solution, SolveError>,
    solver: HyperLiquidSolver,
    auction: Auction,
    o: AuctionOrder,
    id: u64,
    nonce: u64,
) -> bool {
    let (token_in, amount_in, token_out) = trade_input(o);
    if !lists_token(auction, token_in@) {
        r == Err::<Solution, SolveError>(missing_price(o.kind, true))
    } else if !lists_token(auction, token_out@) {
        r == Err::<Solution, SolveError>(missing_price(o.kind, false))
    } else {
        match r {
            Ok(s) => is_order_solution(s, solver, auction.id, s.prices@, o, id, nonce)
                && are_placeholder_prices(auction, s.prices@),
            Err(e) => e == SolveError::SigningFailed && private_signature(solver, o, nonce) is None,
        }
    }
}

/// Whether both tokens of the order's trade have a price; only then is the
/// input amount multiplied by one.
pub open spec fn trade_priced(auction: Auction, o: AuctionOrder) -> bool {
    lists_token(auction, trade_input(o).0@) && lists_token(auction, trade_input(o).2@)
}

/// The current time in nanoseconds since the Unix epoch, read from
/// `std::time::SystemTime`. Nothing is stated of the reading; a clock that
/// reads before the epoch gives zero.
#[verifier::external_body]
fn now_nanos() -> u128 {
    match std::time::SystemTime::now().duration_since(std::time::UNIX_EPOCH) {
        Ok(d) => d.as_nanos(),
        Err(_) => 0,
    }
}

impl HyperLiquidSolver {
    #[verifier::type_invariant]
    spec fn key_is_valid(self) -> bool {
        valid_secret(self.key@)
    }

    /// The solver's configuration.
    pub closed spec fn config_spec(&self) -> SolverConfig {
        self.config
    }

    /// The solver's key, read from the configured private key.
    pub closed spec fn key_spec(&self) -> Seq<u8> {
        self.key@
    }

    /// A solver for the configuration; fails when the private key is not a
    /// valid hexadecimal secp256k1 key.
    pub fn new(config: SolverConfig) -> (r: Result<HyperLiquidSolver, SolveError>)
        ensures
            match parse_key_spec(config.solver_private_key@) {
                Some(k) => r matches Ok(s) && s.config_spec() == config && s.key_spec() == k,
                None => r == Err::<HyperLiquidSolver, SolveError>(SolveError::InvalidKey),
            },
    {
        match parse_private_key(config.solver_private_key.as_str()) {
            Some(key) => Ok(HyperLiquidSolver { config, key }),
            None => Err(SolveError::InvalidKey),
        }
    }

    /// The solution of one order with the given identifier and nonce: the
    /// order's input amount goes into the vault and, at the placeholder
    /// prices, the same amount of the other token comes out.
    pub fn create_solution_with_nonce(
        &self,
        auction: &Auction,
        order: &AuctionOrder,
        solution_id: u64,
        nonce: u64,
    ) -> (r: Result<Solution, SolveError>)
        requires
            trade_priced(*auction, *order) ==> fits_pricing(*order),
        ensures
            solution_outcome(r, *self, *auction, *order, solution_id, nonce),
    {
        proof {
            use_type_invariant(self);
        }
        let prices = fake_prices(auction);
        let (token_in, amount_in, token_out) = match order.kind {
            Kind::Sell => (order.sell_token, order.sell_amount, order.buy_token),
            Kind::Buy => (order.buy_token, order.buy_amount, order.sell_token),
        };
        proof {
            lemma_fake_prices(*auction, prices@, token_in@);
            lemma_fake_prices(*auction, prices@, token_out@);
        }
        let (price_in, price_out) = match order.kind {
            Kind::Sell => {
                let sell_price = match price_of(&prices, token_in) {
                    Some(p) => p,
                    None => return Err(SolveError::MissingSellPrice),
                };
                let buy_price = match price_of(&prices, token_out) {
                    Some(p) => p,
                    None => return Err(SolveError::MissingBuyPrice),
                };
                (sell_price, buy_price)
            },
            Kind::Buy => {
                let buy_price = match price_of(&prices, token_in) {
                    Some(p) => p,
                    None => return Err(SolveError::MissingBuyPrice),
                };
                let sell_price = match price_of(&prices, token_out) {
                    Some(p) => p,
                    None => return Err(SolveError::MissingSellPrice),
                };
                (buy_price, sell_price)
            },
        };
        let amount_out = u256_div(u256_mul(amount_in, price_in), price_out);
        proof {
            assert((amount_in@ * placeholder_price()) / placeholder_price() == amount_in@)
                by (nonlinear_arith);
        }
        let trade = VaultTrade {
            order_id: keccak256(&order.uid.bytes),
            token_in,
            amount_in,
            token_out,
            amount_out,
            valid_to: order.valid_to,
            nonce: U256::from_u64(nonce),
        };
        proof {
            assert(trade@ == private_trade_terms(*order, nonce as nat));
        }
        let signature = match sign_trade(
            &self.key,
            &trade,
            self.config.chain_id,
            self.config.vault_address,
            self.config.settlement_contract,
        ) {
            Some(s) => s,
            None => return Err(SolveError::SigningFailed),
        };
        let call_data = exchange_calldata(&trade, signature);
        let mut allowances: Vec<Allowance> = Vec::new();
        allowances.push(
            Allowance {
                token: order.sell_token,
                spender: self.config.vault_address,
                amount: U256::max_value(),
            },
        );
        let mut inputs: Vec<Asset> = Vec::new();
        inputs.push(Asset { token: token_in, amount: amount_in });
        let mut outputs: Vec<Asset> = Vec::new();
        outputs.push(Asset { token: token_out, amount: amount_out });
        let mut interactions: Vec<CustomInteraction> = Vec::new();
        interactions.push(
            CustomInteraction {
                target: self.config.vault_address,
                value: U256::zero(),
                call_data,
                allowances,
                inputs,
                outputs,
                internalize: false,
            },
        );
        let fee = match auction.id {
            None => None,
            Some(_) => Some(U256::zero()),
        };
        let mut trades: Vec<Fulfillment> = Vec::new();
        trades.push(Fulfillment { order: order.uid, executed_amount: amount_in, fee });
        proof {
            assert(trade@ == private_trade_terms(*order, nonce as nat));
            assert(interactions@[0].inputs@ =~= seq![Asset { token: token_in, amount: amount_in }]);
        }
        Ok(Solution { id: solution_id, prices, trades, interactions, gas: Some(250_000u64) })
    }

    /// The solution of one order, with the current Unix time in seconds as
    /// the trade's nonce.
    pub fn create_solution(&self, auction: &Auction, order: &AuctionOrder, solution_id: u64) -> (r:
        Result<Solution, SolveError>)
        requires
            trade_priced(*auction, *order) ==> fits_pricing(*order),
        ensures
            exists|nonce: u64| solution_outcome(r, *self, *auction, *order, solution_id, nonce),
    {
        let nanos = now_nanos();
        let secs = nanos / 1_000_000_000u128;
        let nonce: u64 = if secs <= 0xffff_ffff_ffff_ffffu128 {
            secs as u64
        } else {
            0xffff_ffff_ffff_ffffu64
        };
        self.create_solution_with_nonce(auction, order, solution_id, nonce)
    }

    /// Solves every order of the auction in turn: each order whose vault
    /// trade the signer signs gets a solution, numbered from zero in the
    /// order of the auction; an order is left out only when the signer
    /// fails on its trade with the nonce the clock gave it.
    pub fn solve(&self, auction: &Auction) -> (r: Vec<Solution>)
        requires
            forall|i: int| 0 <= i < auction.orders@.len() ==> fits_pricing(#[trigger] auction.orders@[i]),
        ensures
            r@.len() <= auction.orders@.len(),
            exists|idx: Seq<int>|
                is_solved_sequence(r@, idx, *self, *auction) && skips_only_unsigned(idx, *self, *auction),
    {
        let mut solutions: Vec<Solution> = Vec::new();
        let mut counter: u64 = 0;
        let ghost mut idx: Seq<int> = Seq::empty();
        let mut i: usize = 0;
        while i < auction.orders.len()
            invariant
                i <= auction.orders@.len(),
                forall|k: int| 0 <= k < auction.orders@.len() ==> fits_pricing(#[trigger] auction.orders@[k]),
                solutions@.len() <= i,
                counter == solutions@.len(),
                is_solved_sequence(solutions@, idx, *self, *auction),
                forall|j: int| 0 <= j < idx.len() ==> #[trigger] idx[j] < i,
                forall|k: int|
                    0 <= k < i && !idx.contains(k) ==> exists|nonce: u64|
                        (#[trigger] private_signature(*self, auction.orders@[k], nonce)) is None,
            decreases auction.orders@.len() - i,
        {
            let order = &auction.orders[i];
            let ghost idx0 = idx;
            proof {
                assert(lists_token(*auction, order.sell_token@));
                assert(lists_token(*auction, order.buy_token@));
            }
            match self.create_solution(auction, order, counter) {
                Ok(solution) => {
                    let ghost before = solutions@;
                    proof {
                        let n = choose|n: u64|
                            solution_outcome(
                                Ok::<Solution, SolveError>(solution),
                                *self,
                                *auction,
                                *order,
                                counter,
                                n,
                            );
                        assert(is_order_solution(
                            solution,
                            *self,
                            auction.id,
                            solution.prices@,
                            auction.orders@[i as int],
                            counter,
                            n,
                        ));
                        assert((before.len() as int) as u64 == counter);
                    }
                    solutions.push(solution);
                    proof {
                        idx = idx.push(i as int);
                        assert forall|j: int| 0 <= j < solutions@.len() implies
                            #[trigger] solved_by(solutions@[j], idx[j], j, *self, *auction) by {
                            if j < before.len() {
                                assert(solutions@[j] == before[j]);
                            }
                        }
                        assert forall|k: int| 0 <= k < i + 1 && !idx.contains(k) implies exists|nonce: u64|
                            (#[trigger] private_signature(*self, auction.orders@[k], nonce)) is None by {
                            assert(idx[idx.len() - 1] == i as int);
                            if idx0.contains(k) {
                                let j = choose|j: int| 0 <= j < idx0.len() && idx0[j] == k;
                                assert(idx[j] == k);
                            }
                        }
                    }
                    counter = counter + 1;
                },
                Err(e) => {
                    proof {
                        let n = choose|n: u64|
                            solution_outcome(Err::<Solution, SolveError>(e), *self, *auction, *order, counter, n);
                        assert(private_signature(*self, auction.orders@[i as int], n) is None);
                    }
                },
            }
            i = i + 1;
        }
        proof {
            assert(is_solved_sequence(solutions@, idx, *self, *auction));
            assert(skips_only_unsigned(idx, *self, *auction));
        }
        solutions
    }
}

/// Whether every order of the auction left out of the positions `idx` is
/// one whose trade the signer fails on, for some nonce.
pub open spec fn skips_only_unsigned(idx: Seq<int>, solver: HyperLiquidSolver, auction: Auction) -> bool {
    forall|k: int|
        0 <= k < auction.orders@.len() && !idx.contains(k) ==> exists|nonce: u64|
            (#[trigger] private_signature(solver, auction.orders@[k], nonce)) is None
}

/// Whether solution `s`, numbered `j`, is that of the auction's order `i`
/// for some nonce.
pub open spec fn solved_by(s: Solution, i: int, j: int, solver: HyperLiquidSolver, auction: Auction) -> bool {
    &&& 0 <= i < auction.orders@.len()
    &&& exists|nonce: u64|
        #[trigger] is_order_solution(s, solver, auction.id, s.prices@, auction.orders@[i], j as u64, nonce)
    &&& are_placeholder_prices(auction, s.prices@)
}

/// Whether the solutions are, in order, those of the auction's orders at
/// the strictly increasing positions `idx`, numbered from zero.
pub open spec fn is_solved_sequence(
    v: Seq<Solution>,
    idx: Seq<int>,
    solver: HyperLiquidSolver,
    auction: Auction,
) -> bool {
    &&& idx.len() == v.len()
    &&& forall|a: int, b: int| 0 <= a < b < idx.len() ==> idx[a] < idx[b]
    &&& forall|j: int| 0 <= j < v.len() ==> #[trigger] solved_by(v[j], idx[j], j, solver, auction)
}

/// The solver's settings from the command line and the environment.
#[derive(Clone, Debug, PartialEq, Eq)]
pub struct Config {
    /// The path of a TOML settings file.
    pub config: Option<String>,
    /// The port to listen on; 8000 unless given.
    pub port: u16,
    pub settlement_contract: Option<Address>,
    pub vault_address: Option<Address>,
    pub solver_private_key: Option<String>,
    /// The chain identifier; 1 unless given.
    pub chain_id: u64,
}

/// The solver's settings from a TOML file; each may be missing.
#[derive(Clone, Debug, PartialEq, Eq)]
pub struct FileConfig {
    pub port: Option<u16>,
    pub settlement_contract: Option<Address>,
    pub vault_address: Option<Address>,
    pub solver_private_key: Option<String>,
    pub chain_id: Option<u64>,
}

/// The settings with those of a file laid under them: the file's port
/// replaces only the default port 8000, the file fills in the addresses and
/// the key that are missing, and the file's chain identifier always wins.
pub open spec fn overlaid(c: Config, f: FileConfig) -> Config {
    Config {
        config: c.config,
        port: if c.port == 8000 && f.port is Some {
            f.port->0
        } else {
            c.port
        },
        settlement_contract: if c.settlement_contract is None {
            f.settlement_contract
        } else {
            c.settlement_contract
        },
        vault_address: if c.vault_address is None {
            f.vault_address
        } else {
            c.vault_address
        },
        solver_private_key: if c.solver_private_key is None {
            f.solver_private_key
        } else {
            c.solver_private_key
        },
        chain_id: match f.chain_id {
            Some(id) => id,
            None => c.chain_id,
        },
    }
}

/// Laying the same file under the settings a second time changes nothing.
pub proof fn lemma_overlay_idempotent(c: Config, f: FileConfig)
    ensures
        overlaid(overlaid(c, f), f) == overlaid(c, f),
{
}

/// Lays the settings of a file under those of the command line.
pub fn overlay_file_config(config: Config, file: FileConfig) -> (r: Config)
    ensures
        r == overlaid(config, file),
{
    let Config { config: path, port, settlement_contract, vault_address, solver_private_key, chain_id } =
        config;
    let FileConfig {
        port: file_port,
        settlement_contract: file_settlement,
        vault_address: file_vault,
        solver_private_key: file_key,
        chain_id: file_chain,
    } = file;
    let port = match file_port {
        Some(p) => if port == 8000 {
            p
        } else {
            port
        },
        None => port,
    };
    let settlement_contract = match settlement_contract {
        Some(a) => Some(a),
        None => file_settlement,
    };
    let vault_address = match vault_address {
        Some(a) => Some(a),
        None => file_vault,
    };
    let solver_private_key = match solver_private_key {
        Some(k) => Some(k),
        None => file_key,
    };
    let chain_id = match file_chain {
        Some(id) => id,
        None => chain_id,
    };
    Config { config: path, port, settlement_contract, vault_address, solver_private_key, chain_id }
}

/// A required setting that neither the command line nor the file gives.
#[derive(Clone, Copy, Debug, PartialEq, Eq)]
pub enum ConfigError {
    MissingSettlementContract,
    MissingVaultAddress,
    MissingPrivateKey,
}

impl ConfigError {
    /// The error's message.
    pub fn message(&self) -> (r: String)
        ensures
            *self == ConfigError::MissingSettlementContract ==> r@
                == "settlement_contract is required (CLI or Config File)"@,
            *self == ConfigError::MissingVaultAddress ==> r@
                == "vault_address is required (CLI or Config File)"@,
            *self == ConfigError::MissingPrivateKey ==> r@
                == "solver_private_key is required (CLI or Config File)"@,
    {
        match self {
            ConfigError::MissingSettlementContract => String::from_str(
                "settlement_contract is required (CLI or Config File)",
            ),
            ConfigError::MissingVaultAddress => String::from_str(
                "vault_address is required (CLI or Config File)",
            ),
            ConfigError::MissingPrivateKey => String::from_str(
                "solver_private_key is required (CLI or Config File)",
            ),
        }
    }
}

/// The solver configuration of the settings: the settlement contract, the
/// vault and the key are required, checked in that order.
pub fn solver_config(config: Config) -> (r: Result<SolverConfig, ConfigError>)
    ensures
        config.settlement_contract is None ==> r == Err::<SolverConfig, ConfigError>(
            ConfigError::MissingSettlementContract,
        ),
        config.settlement_contract is Some && config.vault_address is None ==> r == Err::<
            SolverConfig,
            ConfigError,
        >(ConfigError::MissingVaultAddress),
        config.settlement_contract is Some && config.vault_address is Some
            && config.solver_private_key is None ==> r == Err::<SolverConfig, ConfigError>(
            ConfigError::MissingPrivateKey,
        ),
        r matches Ok(c) ==> Some(c.settlement_contract) == config.settlement_contract && Some(
            c.vault_address,
        ) == config.vault_address && Some(c.solver_private_key) == config.solver_private_key
            && c.chain_id == config.chain_id,
        (config.settlement_contract is Some && config.vault_address is Some
            && config.solver_private_key is Some) ==> r is Ok,
{
    let Config { config: _, port: _, settlement_contract, vault_address, solver_private_key, chain_id } =
        config;
    let settlement_contract = match settlement_contract {
        Some(a) => a,
        None => return Err(ConfigError::MissingSettlementContract),
    };
    let vault_address = match vault_address {
        Some(a) => a,
        None => return Err(ConfigError::MissingVaultAddress),
    };
    let solver_private_key = match solver_private_key {
        Some(k) => k,
        None => return Err(ConfigError::MissingPrivateKey),
    };
    Ok(SolverConfig { settlement_contract, vault_address, solver_private_key, chain_id })
}

} // verus!
