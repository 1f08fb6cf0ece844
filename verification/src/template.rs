//! The vault driver template: fake liquidity and a fake quote solution for
//! a pair, the domain solution that trades every order against the vault,
//! and the driver's configuration choices.

use crate::abi::{
    address_word, address_word_of, call_word, lemma_static_param, encode_call, encode_params, encode_params_exec,
    function_selector, keccak256, keccak256_spec, lemma_word_len, push_bytes, selector_of,
    tokens_view, u256_word, vecs_view, well_formed_values, word, AbiToken, AbiValue,
};
use crate::address::{lemma_h160_plain, low_u64_be_bytes, parse_h160, Address};
use crate::domain::{Asset, Id, Kind, Liquidity, Reserves, UniswapV2Pool};
use crate::liquidity::OrderUid;
use crate::private_lp::{AuctionOrder, Class, Kind as AuctionKind};
use crate::signing::{prehash_signature, sign_hash, valid_secret};
use crate::solution::hyperliquid::uniform_prices;
use crate::solution::{
    native_token, trade_fee, Allowance, CustomInteraction, Fee, Fulfillment, Order, OrderClass,
    Partial, Side, Solution,
};
use crate::text::{all_dec_digits, all_hex_digits, dec_value, hex_pairs};
use crate::uint::{u256_from_dec_str, U256};
use rand::Rng;
use vstd::prelude::*;
use vstd::string::StringSliceAdditionalSpecFns;

verus! {

/// The reserves of a constant-product pool of two different tokens; none
/// for a single token.
pub fn reserves_try_new(first: Asset, second: Asset) -> (r: Option<Reserves>)
    ensures
        first.token@ == second.token@ ==> r is None,
        first.token@ != second.token@ ==> r == Some(Reserves { first, second }),
{
    if first.token.same(&second.token) {
        None
    } else {
        Some(Reserves { first, second })
    }
}

/// The reserve of each token of the fake pool: 1000 units of 18 decimals.
pub open spec fn fake_reserve() -> nat {
    1_000_000_000_000_000_000_000
}

/// A single fake constant-product pool between the two tokens, with 1000
/// units of each, at address 1 with router 2, costing 100000 gas.
pub fn get_fake_liquidity(sell_token: Address, buy_token: Address) -> (r: Vec<Liquidity>)
    requires
        sell_token@ != buy_token@,
    ensures
        r@.len() == 1,
        r@[0].id == Id(0),
        r@[0].gas@ == 100_000,
        r@[0].kind matches Kind::UniswapV2(pool) && {
            &&& pool.address@ == low_u64_be_bytes(1)
            &&& pool.router@ == low_u64_be_bytes(2)
            &&& pool.reserves.first.token == sell_token
            &&& pool.reserves.first.amount@ == fake_reserve()
            &&& pool.reserves.second.token == buy_token
            &&& pool.reserves.second.amount@ == fake_reserve()
        },
{
    let amount = U256::from_u128(1_000_000_000_000_000_000_000u128);
    let reserves = match reserves_try_new(
        Asset { token: sell_token, amount },
        Asset { token: buy_token, amount },
    ) {
        Some(r) => r,
        None => {
            proof {
                assert(false);
            }
            Reserves { first: Asset { token: sell_token, amount }, second: Asset { token: buy_token, amount } }
        },
    };
    let pool = UniswapV2Pool {
        address: Address::from_low_u64_be(1),
        router: Address::from_low_u64_be(2),
        reserves,
    };
    let mut r: Vec<Liquidity> = Vec::new();
    r.push(Liquidity { id: Id(0), gas: U256::from_u64(100_000), kind: Kind::UniswapV2(pool) });
    r
}

/// The settings of the liquidity-sources notifier: those of the Liquorice
/// source, if it is enabled.
#[derive(Clone, Debug, PartialEq, Eq)]
pub struct NotifierConfig<L> {
    pub liquorice: Option<L>,
}

/// A liquidity-sources notifier for a chain.
#[derive(Clone, Debug, PartialEq, Eq)]
pub struct Notifier<L> {
    pub config: NotifierConfig<L>,
    pub chain: u64,
}

/// The notifier of the driver: the configured notifier settings, or with no
/// source enabled when none are configured.
pub fn liquidity_sources_notifier<L>(config: Option<NotifierConfig<L>>, chain: u64) -> (r: Notifier<L>)
    ensures
        r.chain == chain,
        config matches Some(c) ==> r.config == c,
        config is None ==> r.config.liquorice is None,
{
    let config = match config {
        Some(c) => c,
        None => NotifierConfig { liquorice: None },
    };
    Notifier { config, chain }
}

/// The simulator the driver is configured with, if any: Tenderly's or
/// Enso's, with their settings.
#[derive(Clone, Debug, PartialEq, Eq)]
pub enum SimulatorConfig<T, E> {
    Tenderly(T),
    Enso(E),
}

/// Where the driver simulates settlements: Tenderly, Enso, or the node.
#[derive(Clone, Debug, PartialEq, Eq)]
pub enum SimulatorBackend<T, E> {
    Tenderly(T),
    Enso(E),
    Ethereum,
}

/// The driver's simulator: its backend, whether it simulates access lists,
/// and the gas it assumes in place of simulating it.
#[derive(Clone, Debug, PartialEq, Eq)]
pub struct SimulatorSetup<T, E, G> {
    pub backend: SimulatorBackend<T, E>,
    pub access_lists: bool,
    pub fixed_gas: Option<G>,
}

/// The simulator of the configuration: the configured backend or the node,
/// access-list simulation unless disabled, and gas simulation replaced by a
/// fixed amount where one is configured.
pub fn simulator<T, E, G>(
    config: Option<SimulatorConfig<T, E>>,
    disable_access_list_simulation: bool,
    disable_gas_simulation: Option<G>,
) -> (r: SimulatorSetup<T, E, G>)
    ensures
        r.backend == (match config {
            Some(SimulatorConfig::Tenderly(t)) => SimulatorBackend::<T, E>::Tenderly(t),
            Some(SimulatorConfig::Enso(e)) => SimulatorBackend::<T, E>::Enso(e),
            None => SimulatorBackend::<T, E>::Ethereum,
        }),
        r.access_lists == !disable_access_list_simulation,
        r.fixed_gas == disable_gas_simulation,
{
    let backend = match config {
        Some(SimulatorConfig::Tenderly(t)) => SimulatorBackend::Tenderly(t),
        Some(SimulatorConfig::Enso(e)) => SimulatorBackend::Enso(e),
        None => SimulatorBackend::Ethereum,
    };
    let mut setup = SimulatorSetup { backend, access_lists: true, fixed_gas: None };
    if disable_access_list_simulation {
        setup.access_lists = false;
    }
    match disable_gas_simulation {
        Some(gas) => {
            setup.fixed_gas = Some(gas);
        },
        None => {},
    }
    setup
}

/// One ether in wei, read from its decimal text.
fn one_ether() -> (r: U256)
    ensures
        r@ == 1_000_000_000_000_000_000,
{
    let text = "1000000000000000000";
    proof {
        reveal_strlit("1000000000000000000");
        reveal_with_fuel(dec_value, 20);
        assert(all_dec_digits(text@));
        assert(dec_value(text@) == 1_000_000_000_000_000_000);
    }
    match u256_from_dec_str(text) {
        Some(v) => v,
        None => {
            proof {
                assert(false);
            }
            U256::zero()
        },
    }
}

/// The text of the vault address that the fake quote solution trades with.
pub open spec fn quote_vault_text() -> Seq<char> {
    "0x24be1e421e38a9ef728c5c36a69d724820ab58ed"@
}

/// The vault address that the fake quote solution trades with.
pub open spec fn quote_vault() -> Seq<u8> {
    hex_pairs(quote_vault_text().skip(2))
}

/// The vault of the fake quote solution, read from its text.
fn parse_quote_vault() -> (r: Address)
    ensures
        r@ == quote_vault(),
{
    let text = "0x24be1e421e38a9ef728c5c36a69d724820ab58ed";
    proof {
        reveal_strlit("0x24be1e421e38a9ef728c5c36a69d724820ab58ed");
        assert(all_hex_digits(text@.skip(2)));
        lemma_h160_plain(text@);
    }
    match parse_h160(text) {
        Some(a) => a,
        None => {
            proof {
                assert(false);
            }
            Address { bytes: [0u8; 20] }
        },
    }
}

/// The amount an order fixes: the sell amount of a sell order, the buy
/// amount of a buy order.
pub open spec fn target_amount(o: Order) -> U256 {
    match o.side {
        Side::Sell => o.sell.amount,
        Side::Buy => o.buy.amount,
    }
}

/// The amount the fake quote fills an order with: what is left of a
/// partially fillable order, the target amount of any other.
pub open spec fn quote_fill(o: Order) -> U256 {
    match o.partial {
        Partial::Yes { available } => available,
        Partial::No => target_amount(o),
    }
}

/// The signature of the vault's `exchange` function in the quote call.
pub open spec fn quote_exchange_signature() -> Seq<u8> {
    "exchange(bytes,address,uint256,address,uint256,uint32,uint256,bytes[])".spec_bytes()
}

/// The parameters of the quote's `exchange` call for an order: its
/// identifier as `bytes`, the sell token, the target amount in and out at a
/// rate of one, the buy token, the validity, a zero nonce and no signatures.
pub open spec fn quote_exchange_params(o: Order) -> Seq<AbiValue> {
    seq![
        AbiValue::Bytes(o.uid.bytes@),
        AbiValue::Word(address_word(o.sell.token@)),
        AbiValue::Word(word(target_amount(o)@)),
        AbiValue::Word(address_word(o.buy.token@)),
        AbiValue::Word(word(target_amount(o)@)),
        AbiValue::Word(word(o.valid_to as nat)),
        AbiValue::Word(word(0)),
        AbiValue::BytesArray(Seq::empty()),
    ]
}

/// The calldata of the quote's `exchange` call for an order.
pub open spec fn quote_exchange_calldata(o: Order) -> Seq<u8> {
    selector_of(quote_exchange_signature()) + encode_params(quote_exchange_params(o))
}

/// The selector of the quote's `exchange` call.
pub open spec fn quote_exchange_selector() -> Seq<u8> {
    selector_of(quote_exchange_signature())
}

/// The quote's `exchange` call for an order takes its sell token and gives
/// its buy token, both at the order's target amount, valid as long as the
/// order, with a zero nonce: words one to six of the call.
pub proof fn lemma_quote_call_terms(o: Order)
    ensures
        call_word(quote_exchange_calldata(o), quote_exchange_selector(), 1) == address_word(o.sell.token@),
        call_word(quote_exchange_calldata(o), quote_exchange_selector(), 2) == word(target_amount(o)@),
        call_word(quote_exchange_calldata(o), quote_exchange_selector(), 3) == address_word(o.buy.token@),
        call_word(quote_exchange_calldata(o), quote_exchange_selector(), 4) == word(target_amount(o)@),
        call_word(quote_exchange_calldata(o), quote_exchange_selector(), 5) == word(o.valid_to as nat),
        call_word(quote_exchange_calldata(o), quote_exchange_selector(), 6) == word(0),
{
    let ps = quote_exchange_params(o);
    let sel = quote_exchange_selector();
    assert(well_formed_values(ps));
    lemma_static_param(sel, ps, 1);
    lemma_static_param(sel, ps, 2);
    lemma_static_param(sel, ps, 3);
    lemma_static_param(sel, ps, 4);
    lemma_static_param(sel, ps, 5);
    lemma_static_param(sel, ps, 6);
}

/// Whether `i` is the vault interaction that the fake quote makes for an
/// order: it may spend, takes and gives the order's target amount.
pub open spec fn is_quote_interaction(i: CustomInteraction, o: Order) -> bool {
    let amount = target_amount(o);
    &&& i.target@ == quote_vault()
    &&& i.value@ == 0
    &&& i.call_data@ == quote_exchange_calldata(o)
    &&& i.allowances@.len() == 1
    &&& i.allowances@[0].token == o.sell.token
    &&& i.allowances@[0].spender@ == quote_vault()
    &&& i.allowances@[0].amount == amount
    &&& i.inputs@ == seq![Asset { token: o.sell.token, amount }]
    &&& i.outputs@ == seq![Asset { token: o.buy.token, amount }]
    &&& !i.internalize
}

/// The quote's vault call trades what the interaction says: its token in
/// and amount in are the interaction's input, its token out and amount out
/// the interaction's output.
pub proof fn lemma_quote_interaction_call(i: CustomInteraction, o: Order)
    requires
        is_quote_interaction(i, o),
    ensures
        call_word(i.call_data@, quote_exchange_selector(), 1) == address_word(i.inputs@[0].token@),
        call_word(i.call_data@, quote_exchange_selector(), 2) == word(i.inputs@[0].amount@),
        call_word(i.call_data@, quote_exchange_selector(), 3) == address_word(i.outputs@[0].token@),
        call_word(i.call_data@, quote_exchange_selector(), 4) == word(i.outputs@[0].amount@),
{
    lemma_quote_call_terms(o);
}

/// The vault interaction of the fake quote for an order.
fn quote_interaction(o: &Order, vault: Address) -> (r: CustomInteraction)
    requires
        vault@ == quote_vault(),
    ensures
        is_quote_interaction(r, *o),
{
    let amount = o.target();
    let mut uid: Vec<u8> = Vec::new();
    push_bytes(&mut uid, &o.uid.bytes);
    let mut tokens: Vec<AbiToken> = Vec::new();
    tokens.push(AbiToken::Bytes(uid));
    tokens.push(AbiToken::Word(address_word_of(o.sell.token)));
    tokens.push(AbiToken::Word(u256_word(amount)));
    tokens.push(AbiToken::Word(address_word_of(o.buy.token)));
    tokens.push(AbiToken::Word(u256_word(amount)));
    tokens.push(AbiToken::Word(u256_word(U256::from_u64(o.valid_to as u64))));
    tokens.push(AbiToken::Word(u256_word(U256::zero())));
    tokens.push(AbiToken::BytesArray(Vec::new()));
    proof {
        assert(vecs_view(Seq::<Vec<u8>>::empty()) =~= Seq::<Seq<u8>>::empty());
        assert(tokens_view(tokens@) =~= quote_exchange_params(*o));
        lemma_word_len(amount@);
        lemma_word_len(o.valid_to as nat);
        lemma_word_len(0);
        assert(well_formed_values(tokens_view(tokens@)));
    }
    let selector = function_selector(
        "exchange(bytes,address,uint256,address,uint256,uint32,uint256,bytes[])",
    );
    let call_data = encode_call(selector.as_slice(), &tokens);
    let mut allowances: Vec<Allowance> = Vec::new();
    allowances.push(Allowance { token: o.sell.token, spender: vault, amount });
    let mut inputs: Vec<Asset> = Vec::new();
    inputs.push(Asset { token: o.sell.token, amount });
    let mut outputs: Vec<Asset> = Vec::new();
    outputs.push(Asset { token: o.buy.token, amount });
    proof {
        assert(inputs@ =~= seq![Asset { token: o.sell.token, amount }]);
        assert(outputs@ =~= seq![Asset { token: o.buy.token, amount }]);
    }
    CustomInteraction {
        target: vault,
        value: U256::zero(),
        call_data,
        allowances,
        inputs,
        outputs,
        internalize: false,
    }
}

/// Whether `t` is the first trade of the fake quote for an order: the
/// order filled as far as it can be, with a zero fee where the solver sets
/// the fee.
pub open spec fn is_quote_fill(t: Fulfillment, o: Order) -> bool {
    &&& t.order == o.uid
    &&& t.executed == quote_fill(o)
    &&& (o.kind == OrderClass::Limit ==> (t.fee matches Fee::Dynamic(f) && f@ == 0))
    &&& (o.kind != OrderClass::Limit ==> t.fee == Fee::Static)
}

/// Whether `t` is the second trade of the fake quote for an order, which
/// keeps the solution from being empty: the target amount, the order's own
/// fee.
pub open spec fn is_quote_vault_fill(t: Fulfillment, o: Order) -> bool {
    t.order == o.uid && t.executed == target_amount(o) && t.fee == Fee::Static
}

/// The fake quote solution for the orders of an auction: prices of one
/// ether for every token, for each order a fill, and for each order a
/// vault `exchange` at a rate of one with a second fill.
pub fn fake_solve(orders: &Vec<Order>) -> (r: Solution)
    ensures
        r.id == 0,
        r.gas is None,
        r.prices@.len() == 2 * orders@.len(),
        forall|i: int|
            0 <= i < orders@.len() ==> (#[trigger] r.prices@[2 * i]).0 == orders@[i].sell.token
                && r.prices@[2 * i + 1].0 == orders@[i].buy.token && r.prices@[2 * i].1@
                == 1_000_000_000_000_000_000 && r.prices@[2 * i + 1].1@ == 1_000_000_000_000_000_000,
        r.trades@.len() == 2 * orders@.len(),
        r.interactions@.len() == orders@.len(),
        forall|i: int|
            0 <= i < orders@.len() ==> is_quote_fill(#[trigger] r.trades@[i], orders@[i])
                && is_quote_vault_fill(r.trades@[orders@.len() + i], orders@[i])
                && is_quote_interaction(r.interactions@[i], orders@[i]),
{
    let price = one_ether();
    let prices = uniform_prices(orders, price);
    let mut trades: Vec<Fulfillment> = Vec::new();
    let mut i: usize = 0;
    while i < orders.len()
        invariant
            i <= orders@.len(),
            trades@.len() == i,
            forall|k: int| 0 <= k < i ==> is_quote_fill(#[trigger] trades@[k], orders@[k]),
        decreases orders@.len() - i,
    {
        let o = &orders[i];
        let executed = match o.partial {
            Partial::Yes { available } => available,
            Partial::No => o.target(),
        };
        trades.push(Fulfillment { order: o.uid, executed, fee: trade_fee(o) });
        i = i + 1;
    }
    let vault = parse_quote_vault();
    let mut interactions: Vec<CustomInteraction> = Vec::new();
    let mut j: usize = 0;
    while j < orders.len()
        invariant
            j <= orders@.len(),
            vault@ == quote_vault(),
            interactions@.len() == j,
            trades@.len() == orders@.len() + j,
            forall|k: int| 0 <= k < orders@.len() ==> is_quote_fill(#[trigger] trades@[k], orders@[k]),
            forall|k: int|
                0 <= k < j ==> is_quote_vault_fill(#[trigger] trades@[orders@.len() + k], orders@[k])
                    && is_quote_interaction(interactions@[k], orders@[k]),
        decreases orders@.len() - j,
    {
        let o = &orders[j];
        interactions.push(quote_interaction(o, vault));
        trades.push(Fulfillment { order: o.uid, executed: o.target(), fee: Fee::Static });
        j = j + 1;
    }
    Solution { id: 0, trades, prices, interactions, gas: None }
}

/// The amounts an order trades in the domain solution.
#[derive(Clone, Copy, Debug, PartialEq, Eq)]
pub struct Amounts {
    pub side: Side,
    pub sell: Asset,
    pub buy: Asset,
    pub executed_sell: U256,
    pub executed_buy: U256,
}

/// The summary of a solved auction: its trades by order and its prices.
#[derive(Clone, Debug, PartialEq, Eq)]
pub struct Solved {
    pub id: u64,
    pub score: U256,
    pub trades: Vec<(OrderUid, Amounts)>,
    pub prices: Vec<(Address, U256)>,
    pub gas: Option<U256>,
}

/// A domain solution with its summary.
#[derive(Clone, Debug, PartialEq, Eq)]
pub struct DomainSolution {
    pub solved: Solved,
    pub solution: Solution,
}

/// Why the domain solution could not be built.
#[derive(Clone, Copy, Debug, PartialEq, Eq)]
pub enum DomainSolutionError {
    /// The signer reported an error.
    SigningFailed,
}

/// The text of the vault address that the domain solution trades with.
pub open spec fn domain_vault_text() -> Seq<char> {
    "0xdf2160bf40869b75fb9634ddb51779719937a450"@
}

/// The vault address that the domain solution trades with.
pub open spec fn domain_vault() -> Seq<u8> {
    hex_pairs(domain_vault_text().skip(2))
}

/// The vault of the domain solution, read from its text.
fn parse_domain_vault() -> (r: Address)
    ensures
        r@ == domain_vault(),
{
    let text = "0xdf2160bf40869b75fb9634ddb51779719937a450";
    proof {
        reveal_strlit("0xdf2160bf40869b75fb9634ddb51779719937a450");
        assert(all_hex_digits(text@.skip(2)));
        lemma_h160_plain(text@);
    }
    match parse_h160(text) {
        Some(a) => a,
        None => {
            proof {
                assert(false);
            }
            Address { bytes: [0u8; 20] }
        },
    }
}

/// A random nonce from the operating system's generator (`rand`'s `OsRng`).
/// Nothing is stated of it.
#[verifier::external_body]
fn random_nonce() -> u64 {
    rand::rngs::OsRng.gen::<u64>()
}

/// The fields of an order's vault trade that the solver signs and the
/// `exchange` call carries, in this order.
pub open spec fn domain_trade_fields(
    o: Order,
    chain_id: nat,
    nonce: nat,
    vault: Seq<u8>,
    settlement: Seq<u8>,
) -> Seq<AbiValue> {
    seq![
        AbiValue::Bytes(o.uid.bytes@),
        AbiValue::Word(address_word(o.sell.token@)),
        AbiValue::Word(word(o.sell.amount@)),
        AbiValue::Word(address_word(o.buy.token@)),
        AbiValue::Word(word(o.buy.amount@)),
        AbiValue::Word(word(o.valid_to as nat)),
        AbiValue::Word(word(chain_id)),
        AbiValue::Word(word(nonce)),
        AbiValue::Word(address_word(vault)),
        AbiValue::Word(address_word(settlement)),
    ]
}

/// The payload the solver signs for an order: the ABI encoding of the
/// trade's fields as one tuple, which holds `bytes` and so starts with the
/// offset of its encoding.
pub open spec fn domain_payload(
    o: Order,
    chain_id: nat,
    nonce: nat,
    vault: Seq<u8>,
    settlement: Seq<u8>,
) -> Seq<u8> {
    word(32) + encode_params(domain_trade_fields(o, chain_id, nonce, vault, settlement))
}

/// The signature of the vault's `exchange` function in the domain call.
pub open spec fn domain_exchange_signature() -> Seq<u8> {
    "exchange(bytes,address,uint256,address,uint256,uint256,uint256,uint256,address,address,bytes[])".spec_bytes()
}

/// What the solver's key gives an order's vault trade when it signs the
/// Keccak-256 hash of the payload as it is: a signature, or none where the
/// signer fails.
pub open spec fn domain_signature(
    key: Seq<u8>,
    o: Order,
    chain_id: nat,
    nonce: nat,
    vault: Seq<u8>,
    settlement: Seq<u8>,
) -> Option<Seq<u8>> {
    prehash_signature(key, keccak256_spec(domain_payload(o, chain_id, nonce, vault, settlement)))
}

/// The calldata of the domain `exchange` call for an order with a
/// signature: the trade's fields, then the signature as the only element of
/// `bytes[]`.
pub open spec fn domain_exchange_calldata(
    o: Order,
    chain_id: nat,
    nonce: nat,
    settlement: Seq<u8>,
    sig: Seq<u8>,
) -> Seq<u8> {
    let fields = domain_trade_fields(o, chain_id, nonce, domain_vault(), settlement);
    selector_of(domain_exchange_signature()) + encode_params(
        fields.push(AbiValue::BytesArray(seq![sig])),
    )
}

/// The selector of the domain `exchange` call.
pub open spec fn domain_exchange_selector() -> Seq<u8> {
    selector_of(domain_exchange_signature())
}

/// The domain vault is a 20-byte address.
proof fn lemma_domain_vault_len()
    ensures
        domain_vault().len() == 20,
{
    reveal_strlit("0xdf2160bf40869b75fb9634ddb51779719937a450");
}

/// The domain `exchange` call of an order carries its trade as words one
/// to nine: the sell token, the sell amount, the buy token, the buy amount,
/// the validity, the chain, the nonce, the vault and the settlement
/// contract. Each is the same word of the payload the solver signs.
pub proof fn lemma_domain_call_terms(o: Order, chain_id: u64, nonce: u64, settlement: Address, sig: Seq<u8>)
    ensures
        call_word(
            domain_exchange_calldata(o, chain_id as nat, nonce as nat, settlement@, sig),
            domain_exchange_selector(),
            1,
        ) == address_word(o.sell.token@),
        call_word(
            domain_exchange_calldata(o, chain_id as nat, nonce as nat, settlement@, sig),
            domain_exchange_selector(),
            2,
        ) == word(o.sell.amount@),
        call_word(
            domain_exchange_calldata(o, chain_id as nat, nonce as nat, settlement@, sig),
            domain_exchange_selector(),
            3,
        ) == address_word(o.buy.token@),
        call_word(
            domain_exchange_calldata(o, chain_id as nat, nonce as nat, settlement@, sig),
            domain_exchange_selector(),
            4,
        ) == word(o.buy.amount@),
        call_word(
            domain_exchange_calldata(o, chain_id as nat, nonce as nat, settlement@, sig),
            domain_exchange_selector(),
            5,
        ) == word(o.valid_to as nat),
        call_word(
            domain_exchange_calldata(o, chain_id as nat, nonce as nat, settlement@, sig),
            domain_exchange_selector(),
            6,
        ) == word(chain_id as nat),
        call_word(
            domain_exchange_calldata(o, chain_id as nat, nonce as nat, settlement@, sig),
            domain_exchange_selector(),
            7,
        ) == word(nonce as nat),
        call_word(
            domain_exchange_calldata(o, chain_id as nat, nonce as nat, settlement@, sig),
            domain_exchange_selector(),
            8,
        ) == address_word(domain_vault()),
        call_word(
            domain_exchange_calldata(o, chain_id as nat, nonce as nat, settlement@, sig),
            domain_exchange_selector(),
            9,
        ) == address_word(settlement@),
        forall|k: int|
            1 <= k < 10 ==> #[trigger] call_word(
                domain_exchange_calldata(o, chain_id as nat, nonce as nat, settlement@, sig),
                domain_exchange_selector(),
                k,
            ) == call_word(
                domain_payload(o, chain_id as nat, nonce as nat, domain_vault(), settlement@),
                word(32),
                k,
            ),
{
    lemma_domain_vault_len();
    let fields = domain_trade_fields(o, chain_id as nat, nonce as nat, domain_vault(), settlement@);
    let ps = fields.push(AbiValue::BytesArray(seq![sig]));
    let sel = domain_exchange_selector();
    assert(well_formed_values(fields));
    assert(well_formed_values(ps));
    assert forall|k: int| 1 <= k < 10 implies {
        &&& #[trigger] call_word(sel + encode_params(ps), sel, k) == (ps[k]->Word_0)
        &&& call_word(word(32) + encode_params(fields), word(32), k) == (ps[k]->Word_0)
    } by {
        assert(ps[k] == fields[k]);
        lemma_static_param(sel, ps, k);
        lemma_static_param(word(32), fields, k);
    }
    assert(domain_exchange_calldata(o, chain_id as nat, nonce as nat, settlement@, sig) == sel
        + encode_params(ps));
    assert(domain_payload(o, chain_id as nat, nonce as nat, domain_vault(), settlement@) == word(32)
        + encode_params(fields));
    assert(call_word(sel + encode_params(ps), sel, 1) == ps[1]->Word_0);
    assert(call_word(sel + encode_params(ps), sel, 2) == ps[2]->Word_0);
    assert(call_word(sel + encode_params(ps), sel, 3) == ps[3]->Word_0);
    assert(call_word(sel + encode_params(ps), sel, 4) == ps[4]->Word_0);
    assert(call_word(sel + encode_params(ps), sel, 5) == ps[5]->Word_0);
    assert(call_word(sel + encode_params(ps), sel, 6) == ps[6]->Word_0);
    assert(call_word(sel + encode_params(ps), sel, 7) == ps[7]->Word_0);
    assert(call_word(sel + encode_params(ps), sel, 8) == ps[8]->Word_0);
    assert(call_word(sel + encode_params(ps), sel, 9) == ps[9]->Word_0);
}

/// Whether `i` is the domain vault interaction of an order: the vault may
/// spend the sell amount, takes the sell asset and gives the buy asset.
pub open spec fn is_domain_interaction(
    i: CustomInteraction,
    key: Seq<u8>,
    o: Order,
    chain_id: nat,
    nonce: nat,
    settlement: Seq<u8>,
) -> bool {
    &&& i.target@ == domain_vault()
    &&& i.value@ == 0
    &&& domain_signature(key, o, chain_id, nonce, domain_vault(), settlement) matches Some(sig)
        && i.call_data@ == domain_exchange_calldata(o, chain_id, nonce, settlement, sig)
    &&& i.allowances@.len() == 1
    &&& i.allowances@[0].token == o.sell.token
    &&& i.allowances@[0].spender@ == domain_vault()
    &&& i.allowances@[0].amount == o.sell.amount
    &&& i.inputs@ == seq![o.sell]
    &&& i.outputs@ == seq![o.buy]
    &&& !i.internalize
}

/// The domain vault call trades what the interaction says: its token in
/// and amount in are the interaction's input (the order's sell side), its
/// token out and amount out the interaction's output (the order's buy
/// side).
pub proof fn lemma_domain_interaction_call(
    i: CustomInteraction,
    key: Seq<u8>,
    o: Order,
    chain_id: u64,
    nonce: u64,
    settlement: Address,
)
    requires
        is_domain_interaction(i, key, o, chain_id as nat, nonce as nat, settlement@),
    ensures
        call_word(i.call_data@, domain_exchange_selector(), 1) == address_word(i.inputs@[0].token@),
        call_word(i.call_data@, domain_exchange_selector(), 2) == word(i.inputs@[0].amount@),
        call_word(i.call_data@, domain_exchange_selector(), 3) == address_word(i.outputs@[0].token@),
        call_word(i.call_data@, domain_exchange_selector(), 4) == word(i.outputs@[0].amount@),
{
    let sig = domain_signature(key, o, chain_id as nat, nonce as nat, domain_vault(), settlement@)->0;
    lemma_domain_call_terms(o, chain_id, nonce, settlement, sig);
}

/// The encoded fields of an order's vault trade.
fn domain_trade_tokens(o: &Order, chain_id: u64, nonce: u64, vault: Address, settlement: Address) -> (r:
    Vec<AbiToken>)
    ensures
        tokens_view(r@) == domain_trade_fields(*o, chain_id as nat, nonce as nat, vault@, settlement@),
        well_formed_values(tokens_view(r@)),
{
    let mut uid: Vec<u8> = Vec::new();
    push_bytes(&mut uid, &o.uid.bytes);
    let mut tokens: Vec<AbiToken> = Vec::new();
    tokens.push(AbiToken::Bytes(uid));
    tokens.push(AbiToken::Word(address_word_of(o.sell.token)));
    tokens.push(AbiToken::Word(u256_word(o.sell.amount)));
    tokens.push(AbiToken::Word(address_word_of(o.buy.token)));
    tokens.push(AbiToken::Word(u256_word(o.buy.amount)));
    tokens.push(AbiToken::Word(u256_word(U256::from_u64(o.valid_to as u64))));
    tokens.push(AbiToken::Word(u256_word(U256::from_u64(chain_id))));
    tokens.push(AbiToken::Word(u256_word(U256::from_u64(nonce))));
    tokens.push(AbiToken::Word(address_word_of(vault)));
    tokens.push(AbiToken::Word(address_word_of(settlement)));
    proof {
        assert(tokens_view(tokens@) =~= domain_trade_fields(
            *o,
            chain_id as nat,
            nonce as nat,
            vault@,
            settlement@,
        ));
        lemma_word_len(o.sell.amount@);
        lemma_word_len(o.buy.amount@);
        lemma_word_len(o.valid_to as nat);
        lemma_word_len(chain_id as nat);
        lemma_word_len(nonce as nat);
    }
    tokens
}

/// The domain vault interaction of an order with the given nonce; `None`
/// exactly when the signer fails on the order's trade.
pub fn domain_interaction(
    o: &Order,
    key: &[u8; 32],
    chain_id: u64,
    nonce: u64,
    vault: Address,
    settlement: Address,
) -> (r: Option<CustomInteraction>)
    requires
        valid_secret(key@),
        vault@ == domain_vault(),
    ensures
        r is Some <==> domain_signature(key@, *o, chain_id as nat, nonce as nat, domain_vault(), settlement@) is Some,
        r matches Some(i) ==> call_word(i.call_data@, domain_exchange_selector(), 1) == address_word(
            o.sell.token@,
        ) && call_word(i.call_data@, domain_exchange_selector(), 2) == word(o.sell.amount@) && call_word(
            i.call_data@,
            domain_exchange_selector(),
            3,
        ) == address_word(o.buy.token@) && call_word(i.call_data@, domain_exchange_selector(), 4) == word(
            o.buy.amount@,
        ),
        r matches Some(i) ==> is_domain_interaction(
            i,
            key@,
            *o,
            chain_id as nat,
            nonce as nat,
            settlement@,
        ),
{
    let fields = domain_trade_tokens(o, chain_id, nonce, vault, settlement);
    let mut payload: Vec<u8> = u256_word(U256::from_u64(32));
    let params = encode_params_exec(&fields);
    push_bytes(&mut payload, params.as_slice());
    proof {
        assert(payload@ == domain_payload(*o, chain_id as nat, nonce as nat, vault@, settlement@));
    }
    let hash = keccak256(payload.as_slice());
    let signature = match sign_hash(key, &hash) {
        Some(s) => s,
        None => return None,
    };
    let ghost sig = signature@;
    let mut tokens = fields;
    let mut sigs: Vec<Vec<u8>> = Vec::new();
    sigs.push(signature);
    tokens.push(AbiToken::BytesArray(sigs));
    proof {
        assert(payload@ == domain_payload(*o, chain_id as nat, nonce as nat, vault@, settlement@));
        assert(vecs_view(sigs@) =~= seq![sig]);
        assert(tokens_view(tokens@) =~= domain_trade_fields(
            *o,
            chain_id as nat,
            nonce as nat,
            vault@,
            settlement@,
        ).push(AbiValue::BytesArray(seq![sig])));
        assert(well_formed_values(tokens_view(tokens@)));
    }
    let selector = function_selector(
        "exchange(bytes,address,uint256,address,uint256,uint256,uint256,uint256,address,address,bytes[])",
    );
    let call_data = encode_call(selector.as_slice(), &tokens);
    let mut allowances: Vec<Allowance> = Vec::new();
    allowances.push(Allowance { token: o.sell.token, spender: vault, amount: o.sell.amount });
    let mut inputs: Vec<Asset> = Vec::new();
    inputs.push(o.sell);
    let mut outputs: Vec<Asset> = Vec::new();
    outputs.push(o.buy);
    proof {
        assert(inputs@ =~= seq![o.sell]);
        assert(outputs@ =~= seq![o.buy]);
    }
    let interaction = CustomInteraction {
        target: vault,
        value: U256::zero(),
        call_data,
        allowances,
        inputs,
        outputs,
        internalize: false,
    };
    proof {
        lemma_domain_interaction_call(interaction, key@, *o, chain_id, nonce, settlement);
    }
    Some(interaction)
}

/// One ether in wei, the placeholder price of the domain solution.
pub open spec fn one_ether_value() -> nat {
    1_000_000_000_000_000_000
}

/// Whether `v` prices, in this order, every auction token, the native
/// token and the wrapped native token at one ether.
pub open spec fn are_domain_prices(v: Seq<(Address, U256)>, tokens: Seq<Address>, weth: Address) -> bool {
    &&& v.len() == tokens.len() + 2
    &&& forall|i: int| 0 <= i < tokens.len() ==> (#[trigger] v[i]).0 == tokens[i]
    &&& v[tokens.len() as int].0@ == native_token()
    &&& v[tokens.len() + 1int].0 == weth
    &&& forall|i: int| 0 <= i < v.len() ==> (#[trigger] v[i]).1@ == one_ether_value()
}

/// Whether the signer signs the vault trade of every order with the nonce
/// at its position.
pub open spec fn all_domain_signed(
    orders: Seq<Order>,
    key: Seq<u8>,
    chain_id: nat,
    nonces: Seq<u64>,
    settlement: Seq<u8>,
) -> bool {
    forall|i: int|
        0 <= i < orders.len() ==> (#[trigger] domain_signature(
            key,
            orders[i],
            chain_id,
            nonces[i] as nat,
            domain_vault(),
            settlement,
        )) is Some
}

/// Whether `d` is the domain solution of the orders with the given nonces:
/// each order filled at its target amount with a zero solver fee, traded
/// in full against the vault with a signed `exchange` call.
pub open spec fn is_domain_solution(
    d: DomainSolution,
    orders: Seq<Order>,
    tokens: Seq<Address>,
    weth: Address,
    settlement: Seq<u8>,
    chain_id: nat,
    key: Seq<u8>,
    nonces: Seq<u64>,
) -> bool {
    let n = orders.len();
    &&& d.solution.id == 0
    &&& d.solution.gas is None
    &&& are_domain_prices(d.solution.prices@, tokens, weth)
    &&& d.solved.prices@ == d.solution.prices@
    &&& d.solved.id == 0
    &&& d.solved.score@ == 0
    &&& d.solved.gas is None
    &&& d.solution.trades@.len() == n
    &&& d.solved.trades@.len() == n
    &&& d.solution.interactions@.len() == n
    &&& forall|i: int|
        0 <= i < n ==> {
            let o = #[trigger] orders[i];
            &&& d.solution.trades@[i].order == o.uid
            &&& d.solution.trades@[i].executed == target_amount(o)
            &&& d.solution.trades@[i].fee matches Fee::Dynamic(f) && f@ == 0
            &&& d.solved.trades@[i] == (
                o.uid,
                Amounts {
                    side: o.side,
                    sell: o.sell,
                    buy: o.buy,
                    executed_sell: o.sell.amount,
                    executed_buy: o.buy.amount,
                },
            )
            &&& is_domain_interaction(
                d.solution.interactions@[i],
                key,
                o,
                chain_id,
                nonces[i] as nat,
                settlement,
            )
        }
}

/// The placeholder prices of the domain solution, once for the solution
/// and once for its summary.
fn domain_prices(tokens: &Vec<Address>, weth: Address) -> (r: (Vec<(Address, U256)>, Vec<(Address, U256)>))
    ensures
        are_domain_prices(r.0@, tokens@, weth),
        r.1@ == r.0@,
{
    let price = U256::from_u64(1_000_000_000_000_000_000u64);
    let mut a: Vec<(Address, U256)> = Vec::new();
    let mut b: Vec<(Address, U256)> = Vec::new();
    let mut i: usize = 0;
    while i < tokens.len()
        invariant
            i <= tokens@.len(),
            price@ == one_ether_value(),
            a@.len() == i,
            b@ == a@,
            forall|k: int| 0 <= k < i ==> #[trigger] a@[k] == (tokens@[k], price),
        decreases tokens@.len() - i,
    {
        a.push((tokens[i], price));
        b.push((tokens[i], price));
        i = i + 1;
    }
    let native = Address { bytes: [0xeeu8; 20] };
    proof {
        assert(native@ =~= native_token());
    }
    a.push((native, price));
    b.push((native, price));
    a.push((weth, price));
    b.push((weth, price));
    proof {
        assert forall|k: int| 0 <= k < a@.len() implies (#[trigger] a@[k]).1@ == one_ether_value() by {
            if k < tokens@.len() {
                assert(a@[k] == (tokens@[k], price));
            }
        }
    }
    (a, b)
}

/// The domain solution of the orders, trading each against the vault with
/// the nonce at its position; fails exactly when the signer fails on some
/// order's trade. The checks that
/// the driver's `Fulfillment::new` and `Solution::new` make of a solution
/// are not part of this function.
pub fn create_domain_solution_with_nonces(
    orders: &Vec<Order>,
    tokens: &Vec<Address>,
    weth: Address,
    settlement: Address,
    chain_id: u64,
    key: &[u8; 32],
    nonces: &Vec<u64>,
) -> (r: Result<DomainSolution, DomainSolutionError>)
    requires
        valid_secret(key@),
        nonces@.len() == orders@.len(),
    ensures
        r matches Ok(d) ==> is_domain_solution(
            d,
            orders@,
            tokens@,
            weth,
            settlement@,
            chain_id as nat,
            key@,
            nonces@,
        ),
        r is Ok <==> all_domain_signed(orders@, key@, chain_id as nat, nonces@, settlement@),
        r is Err ==> r == Err::<DomainSolution, DomainSolutionError>(DomainSolutionError::SigningFailed),
{
    let (prices, solved_prices) = domain_prices(tokens, weth);
    let vault = parse_domain_vault();
    let mut trades: Vec<Fulfillment> = Vec::new();
    let mut solved_trades: Vec<(OrderUid, Amounts)> = Vec::new();
    let mut interactions: Vec<CustomInteraction> = Vec::new();
    let mut i: usize = 0;
    while i < orders.len()
        invariant
            i <= orders@.len(),
            nonces@.len() == orders@.len(),
            valid_secret(key@),
            vault@ == domain_vault(),
            trades@.len() == i,
            solved_trades@.len() == i,
            interactions@.len() == i,
            forall|k: int|
                0 <= k < i ==> {
                    let o = #[trigger] orders@[k];
                    &&& trades@[k].order == o.uid
                    &&& trades@[k].executed == target_amount(o)
                    &&& trades@[k].fee matches Fee::Dynamic(f) && f@ == 0
                    &&& solved_trades@[k] == (
                        o.uid,
                        Amounts {
                            side: o.side,
                            sell: o.sell,
                            buy: o.buy,
                            executed_sell: o.sell.amount,
                            executed_buy: o.buy.amount,
                        },
                    )
                    &&& is_domain_interaction(
                        interactions@[k],
                        key@,
                        o,
                        chain_id as nat,
                        nonces@[k] as nat,
                        settlement@,
                    )
                    &&& domain_signature(
                        key@,
                        o,
                        chain_id as nat,
                        nonces@[k] as nat,
                        domain_vault(),
                        settlement@,
                    ) is Some
                },
        decreases orders@.len() - i,
    {
        let o = &orders[i];
        trades.push(Fulfillment { order: o.uid, executed: o.target(), fee: Fee::Dynamic(U256::zero()) });
        solved_trades.push(
            (
                o.uid,
                Amounts {
                    side: o.side,
                    sell: o.sell,
                    buy: o.buy,
                    executed_sell: o.sell.amount,
                    executed_buy: o.buy.amount,
                },
            ),
        );
        let interaction = match domain_interaction(o, key, chain_id, nonces[i], vault, settlement) {
            Some(x) => x,
            None => {
                proof {
                    assert(domain_signature(
                        key@,
                        orders@[i as int],
                        chain_id as nat,
                        nonces@[i as int] as nat,
                        domain_vault(),
                        settlement@,
                    ) is None);
                }
                return Err(DomainSolutionError::SigningFailed);
            },
        };
        interactions.push(interaction);
        i = i + 1;
    }
    let solution = Solution { id: 0, trades, prices, interactions, gas: None };
    let solved = Solved {
        id: 0,
        score: U256::zero(),
        trades: solved_trades,
        prices: solved_prices,
        gas: None,
    };
    Ok(DomainSolution { solved, solution })
}

/// The domain solution of the orders, each trade with a fresh random
/// nonce; fails only when the signer fails on some order's trade with the
/// nonce it drew.
pub fn create_domain_solution(
    orders: &Vec<Order>,
    tokens: &Vec<Address>,
    weth: Address,
    settlement: Address,
    chain_id: u64,
    key: &[u8; 32],
) -> (r: Result<DomainSolution, DomainSolutionError>)
    requires
        valid_secret(key@),
    ensures
        r matches Ok(d) ==> exists|nonces: Seq<u64>|
            nonces.len() == orders@.len() && #[trigger] is_domain_solution(
                d,
                orders@,
                tokens@,
                weth,
                settlement@,
                chain_id as nat,
                key@,
                nonces,
            ),
        r is Err ==> exists|nonces: Seq<u64>|
            nonces.len() == orders@.len() && !#[trigger] all_domain_signed(
                orders@,
                key@,
                chain_id as nat,
                nonces,
                settlement@,
            ),
        r is Err ==> r == Err::<DomainSolution, DomainSolutionError>(DomainSolutionError::SigningFailed),
{
    let mut nonces: Vec<u64> = Vec::new();
    let mut i: usize = 0;
    while i < orders.len()
        invariant
            i <= orders@.len(),
            nonces@.len() == i,
        decreases orders@.len() - i,
    {
        nonces.push(random_nonce());
        i = i + 1;
    }
    create_domain_solution_with_nonces(orders, tokens, weth, settlement, chain_id, key, &nonces)
}

/// A span of time as `std::time::Duration` holds it.
#[derive(Clone, Copy, Debug, PartialEq, Eq)]
pub struct StdDuration {
    pub secs: u64,
    pub nanos: u32,
}

/// A span of time as `chrono::TimeDelta` holds it: whole seconds and the
/// nanoseconds past them.
#[derive(Clone, Copy, Debug, PartialEq, Eq)]
pub struct TimeDelta {
    pub secs: i64,
    pub nanos: i32,
}

/// The whole seconds of the longest `TimeDelta`, `i64::MAX` milliseconds.
pub open spec fn max_delta_secs() -> nat {
    9_223_372_036_854_775
}

/// The nanoseconds past the whole seconds of the longest `TimeDelta`.
pub open spec fn max_delta_nanos() -> nat {
    807_000_000
}

/// Whether a duration fits in a `TimeDelta`: at most `i64::MAX`
/// milliseconds.
pub open spec fn fits_time_delta(d: StdDuration) -> bool {
    d.secs < max_delta_secs() || (d.secs == max_delta_secs() && d.nanos <= max_delta_nanos())
}

/// `chrono::TimeDelta::from_std`: the same span when it fits, else an
/// out-of-range error, given here as `None`.
#[verifier::external_body]
fn time_delta_from_std(d: StdDuration) -> (r: Option<TimeDelta>)
    requires
        d.nanos < 1_000_000_000,
    ensures
        r is Some <==> fits_time_delta(d),
        r matches Some(t) ==> t.secs == d.secs && t.nanos == d.nanos,
{
    match chrono::TimeDelta::from_std(std::time::Duration::new(d.secs, d.nanos)) {
        Ok(t) => Some(TimeDelta { secs: t.num_seconds(), nanos: t.subsec_nanos() }),
        Err(_) => None,
    }
}

/// How orders are prioritised, as configured.
#[derive(Clone, Copy, Debug, PartialEq, Eq)]
pub enum OrderPriorityStrategy {
    ExternalPrice,
    CreationTimestamp { max_order_age: Option<StdDuration> },
    OwnQuotes { max_order_age: Option<StdDuration> },
}

/// How orders are sorted by the competition.
#[derive(Clone, Copy, Debug, PartialEq, Eq)]
pub enum SortingStrategy {
    ExternalPrice,
    CreationTimestamp { max_order_age: Option<TimeDelta> },
    OwnQuotes { max_order_age: Option<TimeDelta> },
}

/// Whether a configured maximum order age can be used.
pub open spec fn age_fits(age: Option<StdDuration>) -> bool {
    age matches Some(d) ==> d.nanos < 1_000_000_000 && fits_time_delta(d)
}

/// Whether every age of a configured strategy can be used.
pub open spec fn strategy_fits(s: OrderPriorityStrategy) -> bool {
    match s {
        OrderPriorityStrategy::ExternalPrice => true,
        OrderPriorityStrategy::CreationTimestamp { max_order_age } => age_fits(max_order_age),
        OrderPriorityStrategy::OwnQuotes { max_order_age } => age_fits(max_order_age),
    }
}

/// A maximum order age as a `TimeDelta` of the same span.
pub open spec fn age_delta(age: Option<StdDuration>) -> Option<TimeDelta> {
    match age {
        Some(d) => Some(TimeDelta { secs: d.secs as i64, nanos: d.nanos as i32 }),
        None => None,
    }
}

/// The sorting strategy of a configured strategy.
pub open spec fn sorting_strategy(s: OrderPriorityStrategy) -> SortingStrategy {
    match s {
        OrderPriorityStrategy::ExternalPrice => SortingStrategy::ExternalPrice,
        OrderPriorityStrategy::CreationTimestamp { max_order_age } => SortingStrategy::CreationTimestamp {
            max_order_age: age_delta(max_order_age),
        },
        OrderPriorityStrategy::OwnQuotes { max_order_age } => SortingStrategy::OwnQuotes {
            max_order_age: age_delta(max_order_age),
        },
    }
}

/// A maximum order age as a `TimeDelta`.
fn order_age(age: Option<StdDuration>) -> (r: Option<TimeDelta>)
    requires
        age_fits(age),
    ensures
        r == age_delta(age),
{
    match age {
        Some(d) => match time_delta_from_std(d) {
            Some(t) => Some(t),
            None => {
                proof {
                    assert(false);
                }
                None
            },
        },
        None => None,
    }
}

/// The sorting strategies of the configured order priorities, in order.
pub fn build_order_sorting_strategies(order_priority_strategies: &Vec<OrderPriorityStrategy>) -> (r: Vec<
    SortingStrategy,
>)
    requires
        forall|i: int|
            0 <= i < order_priority_strategies@.len() ==> strategy_fits(
                #[trigger] order_priority_strategies@[i],
            ),
    ensures
        r@.len() == order_priority_strategies@.len(),
        forall|i: int|
            0 <= i < r@.len() ==> #[trigger] r@[i] == sorting_strategy(order_priority_strategies@[i]),
{
    let mut r: Vec<SortingStrategy> = Vec::new();
    let mut i: usize = 0;
    while i < order_priority_strategies.len()
        invariant
            i <= order_priority_strategies@.len(),
            forall|k: int|
                0 <= k < order_priority_strategies@.len() ==> strategy_fits(
                    #[trigger] order_priority_strategies@[k],
                ),
            r@.len() == i,
            forall|k: int| 0 <= k < i ==> #[trigger] r@[k] == sorting_strategy(order_priority_strategies@[k]),
        decreases order_priority_strategies@.len() - i,
    {
        let s = match order_priority_strategies[i] {
            OrderPriorityStrategy::ExternalPrice => SortingStrategy::ExternalPrice,
            OrderPriorityStrategy::CreationTimestamp { max_order_age } => SortingStrategy::CreationTimestamp {
                max_order_age: order_age(max_order_age),
            },
            OrderPriorityStrategy::OwnQuotes { max_order_age } => SortingStrategy::OwnQuotes {
                max_order_age: order_age(max_order_age),
            },
        };
        r.push(s);
        i = i + 1;
    }
    r
}

/// The competition order of an auction order: its class as the order kind,
/// its kind as the side, never partially fillable.
pub open spec fn competition_order(o: AuctionOrder) -> Order {
    Order {
        uid: o.uid,
        side: match o.kind {
            AuctionKind::Sell => Side::Sell,
            AuctionKind::Buy => Side::Buy,
        },
        kind: match o.class {
            Class::Market => OrderClass::Market,
            Class::Limit => OrderClass::Limit,
        },
        sell: Asset { token: o.sell_token, amount: o.sell_amount },
        buy: Asset { token: o.buy_token, amount: o.buy_amount },
        valid_to: o.valid_to,
        partial: Partial::No,
    }
}

/// How the owner of an order signed it.
#[derive(Clone, Copy, Debug, PartialEq, Eq)]
pub enum SigningScheme {
    Eip712,
    EthSign,
    Eip1271,
    PreSign,
}

/// An order of an auction as the template receives it: the order's terms,
/// with how it was signed, its signature bytes and its owner.
#[derive(Clone, Debug, PartialEq, Eq)]
pub struct SignedAuctionOrder {
    pub order: AuctionOrder,
    pub signing_scheme: SigningScheme,
    pub signature: Vec<u8>,
    pub owner: Address,
}

/// The signature of a competition order: its scheme, its bytes and the
/// address that signed it.
#[derive(Clone, Debug, PartialEq, Eq)]
pub struct OrderSignature {
    pub scheme: SigningScheme,
    pub data: Vec<u8>,
    pub signer: Address,
}

/// A call that an order asks to run before or after its settlement.
#[derive(Clone, Debug, PartialEq, Eq)]
pub struct OrderInteraction {
    pub target: Address,
    pub value: U256,
    pub call_data: Vec<u8>,
}

/// An order of the competition: its terms, its signature, where the bought
/// tokens go (none for the owner), when it was created, and the calls it
/// asks to run before and after its settlement.
#[derive(Clone, Debug, PartialEq, Eq)]
pub struct CompetitionOrder {
    pub order: Order,
    pub signature: OrderSignature,
    pub receiver: Option<Address>,
    pub created: u32,
    pub pre_interactions: Vec<OrderInteraction>,
    pub post_interactions: Vec<OrderInteraction>,
}

/// Whether `c` is the competition order of an auction order: its terms as
/// `competition_order` gives them, its signature with the owner as signer,
/// no receiver, created at zero, and no pre- or post-interactions.
pub open spec fn is_competition_order(c: CompetitionOrder, o: SignedAuctionOrder) -> bool {
    &&& c.order == competition_order(o.order)
    &&& c.signature.scheme == o.signing_scheme
    &&& c.signature.data@ == o.signature@
    &&& c.signature.signer == o.owner
    &&& c.receiver is None
    &&& c.created == 0
    &&& c.pre_interactions@.len() == 0
    &&& c.post_interactions@.len() == 0
}

/// The competition order of one auction order.
fn map_order(o: &SignedAuctionOrder) -> (r: CompetitionOrder)
    ensures
        is_competition_order(r, *o),
{
    let a = &o.order;
    let data = o.signature.clone();
    proof {
        assert(data@ =~= o.signature@);
    }
    CompetitionOrder {
        order: Order {
            uid: a.uid,
            side: match a.kind {
                AuctionKind::Sell => Side::Sell,
                AuctionKind::Buy => Side::Buy,
            },
            kind: match a.class {
                Class::Market => OrderClass::Market,
                Class::Limit => OrderClass::Limit,
            },
            sell: Asset { token: a.sell_token, amount: a.sell_amount },
            buy: Asset { token: a.buy_token, amount: a.buy_amount },
            valid_to: a.valid_to,
            partial: Partial::No,
        },
        signature: OrderSignature { scheme: o.signing_scheme, data, signer: o.owner },
        receiver: None,
        created: 0,
        pre_interactions: Vec::new(),
        post_interactions: Vec::new(),
    }
}

/// The competition orders of auction orders, in order.
pub fn map_orders(orders: &Vec<SignedAuctionOrder>) -> (r: Vec<CompetitionOrder>)
    ensures
        r@.len() == orders@.len(),
        forall|i: int| 0 <= i < r@.len() ==> is_competition_order(#[trigger] r@[i], orders@[i]),
{
    let mut r: Vec<CompetitionOrder> = Vec::new();
    let mut i: usize = 0;
    while i < orders.len()
        invariant
            i <= orders@.len(),
            r@.len() == i,
            forall|k: int| 0 <= k < i ==> is_competition_order(#[trigger] r@[k], orders@[k]),
        decreases orders@.len() - i,
    {
        r.push(map_order(&orders[i]));
        i = i + 1;
    }
    r
}

/// A token of an auction as the solver receives it.
#[derive(Clone, Debug, PartialEq, Eq)]
pub struct AuctionToken {
    pub decimals: Option<u8>,
    pub symbol: Option<String>,
    pub reference_price: Option<U256>,
    pub available_balance: U256,
    pub trusted: bool,
}

/// A token of the competition's auction.
#[derive(Clone, Debug, PartialEq, Eq)]
pub struct CompetitionToken {
    pub decimals: Option<u8>,
    pub symbol: Option<String>,
    pub address: Address,
    pub price: Option<U256>,
    pub available_balance: U256,
    pub trusted: bool,
}

/// Whether `c` is the competition token of an auction token at an address.
pub open spec fn is_competition_token(c: CompetitionToken, address: Address, t: AuctionToken) -> bool {
    &&& c.decimals == t.decimals
    &&& c.symbol == t.symbol
    &&& c.address == address
    &&& c.price == t.reference_price
    &&& c.available_balance == t.available_balance
    &&& c.trusted == t.trusted
}

/// The competition tokens of the auction's tokens, in order.
pub fn map_tokens(tokens: &Vec<(Address, AuctionToken)>) -> (r: Vec<CompetitionToken>)
    ensures
        r@.len() == tokens@.len(),
        forall|i: int|
            0 <= i < r@.len() ==> is_competition_token(#[trigger] r@[i], tokens@[i].0, tokens@[i].1),
{
    let mut r: Vec<CompetitionToken> = Vec::new();
    let mut i: usize = 0;
    while i < tokens.len()
        invariant
            i <= tokens@.len(),
            r@.len() == i,
            forall|k: int|
                0 <= k < i ==> is_competition_token(#[trigger] r@[k], tokens@[k].0, tokens@[k].1),
        decreases tokens@.len() - i,
    {
        let (address, t) = &tokens[i];
        let symbol = match &t.symbol {
            Some(s) => Some(s.clone()),
            None => None,
        };
        r.push(
            CompetitionToken {
                decimals: t.decimals,
                symbol,
                address: *address,
                price: t.reference_price,
                available_balance: t.available_balance,
                trusted: t.trusted,
            },
        );
        i = i + 1;
    }
    r
}

/// A request to reveal the calldata of a solution.
#[derive(Clone, Copy, Debug, PartialEq, Eq)]
pub struct RevealRequest {
    pub solution_id: u64,
    pub auction_id: u64,
}

/// A request to settle a solution on chain.
#[derive(Clone, Copy, Debug, PartialEq, Eq)]
pub struct SettleRequest {
    pub solution_id: u64,
    pub submission_deadline_latest_block: u64,
    pub auction_id: u64,
}

/// The calldata of a settlement, with and without internalized interactions.
#[derive(Clone, Debug, PartialEq, Eq)]
pub struct Calldata {
    pub internalized: String,
    pub uninternalized: String,
}

/// The answer to a reveal request.
#[derive(Clone, Debug, PartialEq, Eq)]
pub struct RevealResponse {
    pub calldata: Calldata,
}

/// An error answer of the API.
#[derive(Clone, Debug, PartialEq, Eq)]
pub struct Error {
    pub kind: String,
    pub description: String,
}

/// The template's answer to a reveal request: the placeholder calldata
/// "0x1234", internalized and not.
pub fn reveal_calldata(request: RevealRequest) -> (r: RevealResponse)
    ensures
        r.calldata.internalized@ == "0x1234"@,
        r.calldata.uninternalized@ == "0x1234"@,
{
    RevealResponse {
        calldata: Calldata {
            internalized: String::from_str("0x1234"),
            uninternalized: String::from_str("0x1234"),
        },
    }
}

/// The template's answer to a settle request: an empty body.
pub fn settle(request: SettleRequest) -> (r: String)
    ensures
        r@ == Seq::<char>::empty(),
{
    String::new()
}

/// The template's answer to a notification: an empty body.
pub fn receive_notification(notification: String) -> (r: String)
    ensures
        r@ == Seq::<char>::empty(),
{
    String::new()
}

} // verus!
