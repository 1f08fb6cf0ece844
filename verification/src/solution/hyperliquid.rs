//! Solutions that trade orders against a vault contract: the signed payload
//! of a vault trade, the `exchange` calldata that carries it, and the
//! solution of one order.

use crate::abi::{
    address_word, address_word_of, call_word, lemma_static_param, encode_call, lemma_word_len, function_selector, keccak256, keccak256_spec,
    push_bytes, selector_of, u256_word, word, AbiToken, AbiValue, encode_params, tokens_view,
    vecs_view, well_formed_values,
};
use crate::address::Address;
use crate::domain::Asset;
use crate::signing::{eip191_signature, sign_message, valid_secret};
use crate::solution::{
    prices_map, trade_fee, Allowance, CustomInteraction, Fee, Fulfillment, Order, OrderClass, Side,
    Solution,
};
use crate::uint::U256;
use vstd::prelude::*;
use vstd::string::StringSliceAdditionalSpecFns;

verus! {

/// The nonce of every vault trade of the driver's generator.
pub const VAULT_NONCE: u64 = 1764727619u64;

/// The terms of a vault trade.
#[derive(Clone, Copy, Debug, PartialEq, Eq)]
pub struct VaultTrade {
    pub order_id: [u8; 32],
    pub token_in: Address,
    pub amount_in: U256,
    pub token_out: Address,
    pub amount_out: U256,
    pub valid_to: u32,
    pub nonce: U256,
}

/// The terms of a vault trade, as plain values.
pub struct TradeTerms {
    pub order_id: Seq<u8>,
    pub token_in: Seq<u8>,
    pub amount_in: nat,
    pub token_out: Seq<u8>,
    pub amount_out: nat,
    pub valid_to: nat,
    pub nonce: nat,
}

impl View for VaultTrade {
    type V = TradeTerms;

    open spec fn view(&self) -> TradeTerms {
        TradeTerms {
            order_id: self.order_id@,
            token_in: self.token_in@,
            amount_in: self.amount_in@,
            token_out: self.token_out@,
            amount_out: self.amount_out@,
            valid_to: self.valid_to as nat,
            nonce: self.nonce@,
        }
    }
}

/// The payload that the solver signs for a vault trade: the ABI encoding of
/// (order id, token in, amount in, token out, amount out, valid to, chain
/// id, nonce, vault, settlement contract), all static words.
pub open spec fn payload_spec(t: TradeTerms, chain_id: nat, vault: Seq<u8>, settlement: Seq<u8>) -> Seq<u8> {
    t.order_id + address_word(t.token_in) + word(t.amount_in) + address_word(t.token_out) + word(
        t.amount_out,
    ) + word(t.valid_to) + word(chain_id) + word(t.nonce) + address_word(vault) + address_word(
        settlement,
    )
}

/// The parameters of the `exchange` call of a vault trade.
pub open spec fn exchange_params(t: TradeTerms, signature: Seq<u8>) -> Seq<AbiValue> {
    seq![
        AbiValue::Word(t.order_id),
        AbiValue::Word(address_word(t.token_in)),
        AbiValue::Word(word(t.amount_in)),
        AbiValue::Word(address_word(t.token_out)),
        AbiValue::Word(word(t.amount_out)),
        AbiValue::Word(word(t.valid_to)),
        AbiValue::Word(word(t.nonce)),
        AbiValue::BytesArray(seq![signature]),
    ]
}

/// The calldata of `exchange` for a vault trade with the given signature.
pub open spec fn exchange_calldata_spec(t: TradeTerms, signature: Seq<u8>) -> Seq<u8> {
    selector_of(
        "exchange(bytes32,address,uint256,address,uint256,uint32,uint256,bytes[])".spec_bytes(),
    ) + encode_params(
        exchange_params(t, signature),
    )
}

/// The selector of the vault's `exchange` call.
pub open spec fn vault_exchange_selector() -> Seq<u8> {
    selector_of(
        "exchange(bytes32,address,uint256,address,uint256,uint32,uint256,bytes[])".spec_bytes(),
    )
}

/// Whether trade terms have the sizes of their types: a 32-byte order id
/// and 20-byte token addresses.
pub open spec fn terms_sized(t: TradeTerms) -> bool {
    t.order_id.len() == 32 && t.token_in.len() == 20 && t.token_out.len() == 20
}

/// The `exchange` call of vault trade terms carries them as its first seven
/// words: order id, token in, amount in, token out, amount out, validity
/// and nonce. The first six are the signed payload's first six words, and
/// the nonce is the payload's nonce (its eighth word, after the chain id).
pub proof fn lemma_exchange_call_terms(
    t: TradeTerms,
    signature: Seq<u8>,
    chain_id: nat,
    vault: Address,
    settlement: Address,
)
    requires
        terms_sized(t),
    ensures
        call_word(exchange_calldata_spec(t, signature), vault_exchange_selector(), 0) == t.order_id,
        call_word(exchange_calldata_spec(t, signature), vault_exchange_selector(), 1) == address_word(
            t.token_in,
        ),
        call_word(exchange_calldata_spec(t, signature), vault_exchange_selector(), 2) == word(t.amount_in),
        call_word(exchange_calldata_spec(t, signature), vault_exchange_selector(), 3) == address_word(
            t.token_out,
        ),
        call_word(exchange_calldata_spec(t, signature), vault_exchange_selector(), 4) == word(t.amount_out),
        call_word(exchange_calldata_spec(t, signature), vault_exchange_selector(), 5) == word(t.valid_to),
        call_word(exchange_calldata_spec(t, signature), vault_exchange_selector(), 6) == word(t.nonce),
        call_word(exchange_calldata_spec(t, signature), vault_exchange_selector(), 6) == payload_spec(
            t,
            chain_id,
            vault@,
            settlement@,
        ).subrange(224, 256),
        forall|k: int|
            0 <= k < 6 ==> #[trigger] call_word(
                exchange_calldata_spec(t, signature),
                vault_exchange_selector(),
                k,
            ) == payload_spec(t, chain_id, vault@, settlement@).subrange(32 * k, 32 * k + 32),
{
    let ps = exchange_params(t, signature);
    let sel = vault_exchange_selector();
    assert(well_formed_values(ps));
    lemma_static_param(sel, ps, 0);
    lemma_static_param(sel, ps, 1);
    lemma_static_param(sel, ps, 2);
    lemma_static_param(sel, ps, 3);
    lemma_static_param(sel, ps, 4);
    lemma_static_param(sel, ps, 5);
    lemma_static_param(sel, ps, 6);
    let p = payload_spec(t, chain_id, vault@, settlement@);
    assert(p.subrange(0, 32) =~= t.order_id);
    assert(p.subrange(32, 64) =~= address_word(t.token_in));
    assert(p.subrange(64, 96) =~= word(t.amount_in));
    assert(p.subrange(96, 128) =~= address_word(t.token_out));
    assert(p.subrange(128, 160) =~= word(t.amount_out));
    assert(p.subrange(160, 192) =~= word(t.valid_to));
    assert(p.subrange(192, 224) =~= word(chain_id));
    assert(p.subrange(224, 256) =~= word(t.nonce));
    assert(exchange_calldata_spec(t, signature) == sel + encode_params(ps));
}

/// What the solver's key gives a vault trade when it signs it: the EIP-191
/// signature of the Keccak-256 hash of the payload, or none where the
/// signer fails.
pub open spec fn trade_signature(
    key: Seq<u8>,
    t: TradeTerms,
    chain_id: nat,
    vault: Seq<u8>,
    settlement: Seq<u8>,
) -> Option<Seq<u8>> {
    eip191_signature(key, keccak256_spec(payload_spec(t, chain_id, vault, settlement)))
}

/// The payload that the solver signs for a vault trade.
pub fn vault_payload(t: &VaultTrade, chain_id: u64, vault: Address, settlement: Address) -> (r: Vec<u8>)
    ensures
        r@ == payload_spec(t@, chain_id as nat, vault@, settlement@),
{
    let mut out: Vec<u8> = Vec::new();
    push_bytes(&mut out, &t.order_id);
    push_bytes(&mut out, address_word_of(t.token_in).as_slice());
    push_bytes(&mut out, u256_word(t.amount_in).as_slice());
    push_bytes(&mut out, address_word_of(t.token_out).as_slice());
    push_bytes(&mut out, u256_word(t.amount_out).as_slice());
    push_bytes(&mut out, u256_word(U256::from_u64(t.valid_to as u64)).as_slice());
    push_bytes(&mut out, u256_word(U256::from_u64(chain_id)).as_slice());
    push_bytes(&mut out, u256_word(t.nonce).as_slice());
    push_bytes(&mut out, address_word_of(vault).as_slice());
    push_bytes(&mut out, address_word_of(settlement).as_slice());
    proof {
        assert(out@ =~= payload_spec(t@, chain_id as nat, vault@, settlement@));
    }
    out
}

/// The calldata of `exchange` for a vault trade: the selector, the trade's
/// static words, and the signatures as `bytes[]`.
pub fn exchange_calldata(t: &VaultTrade, signature: Vec<u8>) -> (r: Vec<u8>)
    ensures
        r@ == exchange_calldata_spec(t@, signature@),
        call_word(r@, vault_exchange_selector(), 0) == t.order_id@,
        call_word(r@, vault_exchange_selector(), 1) == address_word(t.token_in@),
        call_word(r@, vault_exchange_selector(), 2) == word(t.amount_in@),
        call_word(r@, vault_exchange_selector(), 3) == address_word(t.token_out@),
        call_word(r@, vault_exchange_selector(), 4) == word(t.amount_out@),
        call_word(r@, vault_exchange_selector(), 5) == word(t.valid_to as nat),
        call_word(r@, vault_exchange_selector(), 6) == word(t.nonce@),
{
    let ghost sig = signature@;
    let mut sigs: Vec<Vec<u8>> = Vec::new();
    sigs.push(signature);
    let mut tokens: Vec<AbiToken> = Vec::new();
    let mut id_word: Vec<u8> = Vec::new();
    push_bytes(&mut id_word, &t.order_id);
    tokens.push(AbiToken::Word(id_word));
    tokens.push(AbiToken::Word(address_word_of(t.token_in)));
    tokens.push(AbiToken::Word(u256_word(t.amount_in)));
    tokens.push(AbiToken::Word(address_word_of(t.token_out)));
    tokens.push(AbiToken::Word(u256_word(t.amount_out)));
    tokens.push(AbiToken::Word(u256_word(U256::from_u64(t.valid_to as u64))));
    tokens.push(AbiToken::Word(u256_word(t.nonce)));
    tokens.push(AbiToken::BytesArray(sigs));
    proof {
        assert(vecs_view(sigs@) =~= seq![sig]);
        assert(tokens_view(tokens@) =~= exchange_params(t@, sig));
        lemma_word_len(t.amount_in@);
        lemma_word_len(t.amount_out@);
        lemma_word_len(t.valid_to as nat);
        lemma_word_len(t.nonce@);
        assert(well_formed_values(tokens_view(tokens@)));
    }
    let selector = function_selector(
        "exchange(bytes32,address,uint256,address,uint256,uint32,uint256,bytes[])",
    );
    let r = encode_call(selector.as_slice(), &tokens);
    proof {
        lemma_exchange_call_terms(t@, sig, 0, t.token_in, t.token_out);
    }
    r
}

/// Signs a vault trade: the EIP-191 signature of the Keccak-256 hash of
/// its payload, or `None` where the signer fails.
pub fn sign_trade(key: &[u8; 32], t: &VaultTrade, chain_id: u64, vault: Address, settlement: Address) -> (r:
    Option<Vec<u8>>)
    requires
        valid_secret(key@),
    ensures
        match r {
            Some(s) => trade_signature(key@, t@, chain_id as nat, vault@, settlement@) == Some(s@),
            None => trade_signature(key@, t@, chain_id as nat, vault@, settlement@) is None,
        },
{
    let payload = vault_payload(t, chain_id, vault, settlement);
    let hash = keccak256(payload.as_slice());
    sign_message(key, &hash)
}

/// The same price for the sell and buy token of every order, inserted in
/// order: sell token, then buy token.
pub fn uniform_prices(orders: &Vec<Order>, price: U256) -> (r: Vec<(Address, U256)>)
    ensures
        r@.len() == 2 * orders@.len(),
        forall|i: int|
            0 <= i < orders@.len() ==> #[trigger] r@[2 * i] == (orders@[i].sell.token, price) && r@[2
                * i + 1] == (orders@[i].buy.token, price),
{
    let mut prices: Vec<(Address, U256)> = Vec::new();
    let mut i: usize = 0;
    while i < orders.len()
        invariant
            i <= orders@.len(),
            prices@.len() == 2 * i,
            forall|j: int|
                0 <= j < prices@.len() ==> #[trigger] prices@[j] == (if j % 2 == 0 {
                    (orders@[j / 2].sell.token, price)
                } else {
                    (orders@[j / 2].buy.token, price)
                }),
        decreases orders@.len() - i,
    {
        let ghost before = prices@;
        prices.push((orders[i].sell.token, price));
        prices.push((orders[i].buy.token, price));
        proof {
            assert forall|j: int| 0 <= j < prices@.len() implies #[trigger] prices@[j] == (if j % 2
                == 0 {
                (orders@[j / 2].sell.token, price)
            } else {
                (orders@[j / 2].buy.token, price)
            }) by {
                if j < before.len() {
                    assert(prices@[j] == before[j]);
                } else if j == before.len() {
                    assert(j / 2 == i);
                } else {
                    assert(j / 2 == i);
                }
            }
        }
        i = i + 1;
    }
    proof {
        assert forall|k: int| 0 <= k < orders@.len() implies #[trigger] prices@[2 * k] == (
            orders@[k].sell.token,
            price,
        ) && prices@[2 * k + 1] == (orders@[k].buy.token, price) by {
            assert((2 * k) % 2 == 0 && (2 * k) / 2 == k);
            assert((2 * k + 1) % 2 == 1 && (2 * k + 1) / 2 == k);
            assert(prices@[2 * k + 1] == (orders@[k].buy.token, price));
        }
    }
    prices
}

/// Every token of a uniform price list has that price.
pub proof fn lemma_uniform_prices(v: Seq<(Address, U256)>, price: U256, t: Seq<u8>)
    requires
        forall|i: int| 0 <= i < v.len() ==> (#[trigger] v[i]).1 == price,
        prices_map(v).contains_key(t),
    ensures
        prices_map(v)[t] == price@,
    decreases v.len(),
{
    if v.len() > 0 && v.last().0@ != t {
        let u = v.drop_last();
        assert forall|i: int| 0 <= i < u.len() implies (#[trigger] u[i]).1 == price by {
            assert(u[i] == v[i]);
        }
        lemma_uniform_prices(u, price, t);
    }
}

/// Whether `v` inserts, for each order in turn, its sell token and then its
/// buy token, each at 10^18.
pub open spec fn are_vault_prices(orders: Seq<Order>, v: Seq<(Address, U256)>) -> bool {
    &&& v.len() == 2 * orders.len()
    &&& forall|i: int|
        0 <= i < orders.len() ==> (#[trigger] v[2 * i]).0 == orders[i].sell.token && v[2 * i + 1].0
            == orders[i].buy.token && v[2 * i].1@ == 1_000_000_000_000_000_000 && v[2 * i + 1].1@
            == 1_000_000_000_000_000_000
}

/// Placeholder prices of the driver's vault solver: 10^18 for every token
/// of every order.
pub fn fake_prices(orders: &Vec<Order>) -> (r: Vec<(Address, U256)>)
    ensures
        are_vault_prices(orders@, r@),
{
    uniform_prices(orders, U256::from_u64(1_000_000_000_000_000_000u64))
}

/// The settings of the HyperLiquid API client: the vault it quotes for.
#[derive(Clone, Copy, Debug, PartialEq, Eq)]
pub struct HyperLiquidConfig {
    pub vault_address: Address,
}

/// The vault and keys of the driver's vault solver.
#[derive(Clone, Copy, Debug, PartialEq, Eq)]
pub struct VaultConfig {
    pub vault_address: Address,
    pub settlement_contract: Address,
    pub chain_id: u64,
    pub solver_key: [u8; 32],
}

/// Why an order gets no vault solution.
#[derive(Clone, Copy, Debug, PartialEq, Eq)]
pub enum VaultSolutionError {
    /// The signer reported an error.
    SigningFailed,
}

/// The vault trade of an order: its sell side in, its buy side out, with
/// the Keccak-256 hash of its identifier.
pub open spec fn order_trade_terms(order: Order, nonce: nat) -> TradeTerms {
    TradeTerms {
        order_id: keccak256_spec(order.uid.bytes@),
        token_in: order.sell.token@,
        amount_in: order.sell.amount@,
        token_out: order.buy.token@,
        amount_out: order.buy.amount@,
        valid_to: order.valid_to as nat,
        nonce,
    }
}

/// What the solver's key gives the vault trade of an order when it signs
/// it: a signature, or none where the signer fails.
pub open spec fn vault_signature(order: Order, config: VaultConfig) -> Option<Seq<u8>> {
    trade_signature(
        config.solver_key@,
        order_trade_terms(order, VAULT_NONCE as nat),
        config.chain_id as nat,
        config.vault_address@,
        config.settlement_contract@,
    )
}

/// Whether `s` is the vault solution of one order with the given
/// identifier and prices: the order filled at its target amount, and one
/// signed `exchange` call of the vault that may spend the order's sell
/// amount, takes the sell amount and gives the order's other amount.
pub open spec fn is_vault_solution(
    s: Solution,
    order: Order,
    prices: Seq<(Address, U256)>,
    config: VaultConfig,
    solution_id: u64,
) -> bool {
    let terms = order_trade_terms(order, VAULT_NONCE as nat);
    &&& terms.order_id.len() == 32
    &&& vault_signature(order, config) matches Some(sig) && s.interactions@[0].call_data@
        == exchange_calldata_spec(terms, sig)
    &&& s.id == solution_id
    &&& s.prices@ == prices
    &&& s.trades@.len() == 1
    &&& s.trades@[0].order == order.uid
    &&& s.trades@[0].executed == (match order.side {
        Side::Sell => order.sell.amount,
        Side::Buy => order.buy.amount,
    })
    &&& (order.kind == OrderClass::Limit ==> (s.trades@[0].fee matches Fee::Dynamic(f) && f@
        == 0))
    &&& (order.kind != OrderClass::Limit ==> s.trades@[0].fee == Fee::Static)
    &&& s.interactions@.len() == 1
    &&& s.interactions@[0].target == config.vault_address
    &&& s.interactions@[0].value@ == 0
    &&& s.interactions@[0].allowances@ == seq![Allowance {
        token: order.sell.token,
        spender: config.vault_address,
        amount: order.sell.amount,
    }]
    &&& s.interactions@[0].inputs@ == seq![Asset { token: order.sell.token, amount: order.sell.amount }]
    &&& s.interactions@[0].outputs@ == seq![Asset {
        token: order.buy.token,
        amount: match order.side {
            Side::Sell => order.buy.amount,
            Side::Buy => order.sell.amount,
        },
    }]
    &&& !s.interactions@[0].internalize
    &&& (s.gas matches Some(g) && g@ == 0)
}

/// The vault call of a vault solution trades the order's own terms: it
/// takes the order's sell amount of its sell token and gives the order's
/// buy amount of its buy token, the tokens being those of the interaction's
/// input and output, and the amount in that of its input; for a sell order
/// the amount out is also the interaction's output.
pub proof fn lemma_vault_solution_call(
    s: Solution,
    order: Order,
    prices: Seq<(Address, U256)>,
    config: VaultConfig,
    solution_id: u64,
)
    requires
        is_vault_solution(s, order, prices, config, solution_id),
    ensures
        call_word(s.interactions@[0].call_data@, vault_exchange_selector(), 1) == address_word(
            order.sell.token@,
        ),
        call_word(s.interactions@[0].call_data@, vault_exchange_selector(), 2) == word(order.sell.amount@),
        call_word(s.interactions@[0].call_data@, vault_exchange_selector(), 3) == address_word(
            order.buy.token@,
        ),
        call_word(s.interactions@[0].call_data@, vault_exchange_selector(), 4) == word(order.buy.amount@),
        call_word(s.interactions@[0].call_data@, vault_exchange_selector(), 1) == address_word(
            s.interactions@[0].inputs@[0].token@,
        ),
        call_word(s.interactions@[0].call_data@, vault_exchange_selector(), 2) == word(
            s.interactions@[0].inputs@[0].amount@,
        ),
        call_word(s.interactions@[0].call_data@, vault_exchange_selector(), 3) == address_word(
            s.interactions@[0].outputs@[0].token@,
        ),
        order.side == Side::Sell ==> call_word(
            s.interactions@[0].call_data@,
            vault_exchange_selector(),
            4,
        ) == word(s.interactions@[0].outputs@[0].amount@),
{
    let terms = order_trade_terms(order, VAULT_NONCE as nat);
    let sig = vault_signature(order, config)->0;
    lemma_exchange_call_terms(terms, sig, 0, config.vault_address, config.settlement_contract);
}

/// The vault solution of one order, with the given identifier and prices:
/// the order filled at its target amount, and one signed `exchange` call of
/// the vault that may spend the order's sell amount, takes the sell amount
/// and gives the order's other amount. Fails exactly when the signer fails
/// on the order's trade.
pub fn create_solution(
    order: &Order,
    prices: Vec<(Address, U256)>,
    config: &VaultConfig,
    solution_id: u64,
) -> (r: Result<Solution, VaultSolutionError>)
    requires
        valid_secret(config.solver_key@),
    ensures
        r is Ok <==> vault_signature(*order, *config) is Some,
        r matches Ok(s) ==> is_vault_solution(s, *order, prices@, *config, solution_id),
        r matches Ok(s) ==> call_word(s.interactions@[0].call_data@, vault_exchange_selector(), 1)
            == address_word(order.sell.token@) && call_word(
            s.interactions@[0].call_data@,
            vault_exchange_selector(),
            2,
        ) == word(order.sell.amount@) && call_word(
            s.interactions@[0].call_data@,
            vault_exchange_selector(),
            3,
        ) == address_word(order.buy.token@) && call_word(
            s.interactions@[0].call_data@,
            vault_exchange_selector(),
            4,
        ) == word(order.buy.amount@),
        r is Err ==> r == Err::<Solution, VaultSolutionError>(VaultSolutionError::SigningFailed),
{
    let executed = match order.side {
        Side::Sell => order.sell.amount,
        Side::Buy => order.buy.amount,
    };
    let fee = trade_fee(order);
    let output_amount = match order.side {
        Side::Sell => order.buy.amount,
        Side::Buy => order.sell.amount,
    };
    let trade = VaultTrade {
        order_id: keccak256(&order.uid.bytes),
        token_in: order.sell.token,
        amount_in: order.sell.amount,
        token_out: order.buy.token,
        amount_out: order.buy.amount,
        valid_to: order.valid_to,
        nonce: U256::from_u64(VAULT_NONCE),
    };
    proof {
        assert(trade@ == order_trade_terms(*order, VAULT_NONCE as nat));
    }
    let signature = match sign_trade(
        &config.solver_key,
        &trade,
        config.chain_id,
        config.vault_address,
        config.settlement_contract,
    ) {
        Some(s) => s,
        None => return Err(VaultSolutionError::SigningFailed),
    };
    let call_data = exchange_calldata(&trade, signature);
    let mut allowances: Vec<Allowance> = Vec::new();
    allowances.push(
        Allowance { token: order.sell.token, spender: config.vault_address, amount: order.sell.amount },
    );
    let mut inputs: Vec<Asset> = Vec::new();
    inputs.push(Asset { token: order.sell.token, amount: order.sell.amount });
    let mut outputs: Vec<Asset> = Vec::new();
    outputs.push(Asset { token: order.buy.token, amount: output_amount });
    let mut interactions: Vec<CustomInteraction> = Vec::new();
    interactions.push(
        CustomInteraction {
            target: config.vault_address,
            value: U256::zero(),
            call_data,
            allowances,
            inputs,
            outputs,
            internalize: false,
        },
    );
    let mut trades: Vec<Fulfillment> = Vec::new();
    trades.push(Fulfillment { order: order.uid, executed, fee });
    proof {
        assert(trade@ == order_trade_terms(*order, VAULT_NONCE as nat));
        assert(interactions@[0].allowances@ =~= seq![Allowance {
            token: order.sell.token,
            spender: config.vault_address,
            amount: order.sell.amount,
        }]);
        assert(interactions@[0].inputs@ =~= seq![Asset { token: order.sell.token, amount: order.sell.amount }]);
        assert(interactions@[0].outputs@ =~= seq![Asset { token: order.buy.token, amount: output_amount }]);
    }
    let sol = Solution { id: solution_id, trades, prices, interactions, gas: Some(U256::zero()) };
    proof {
        lemma_vault_solution_call(sol, *order, sol.prices@, *config, solution_id);
    }
    Ok(sol)
}

/// Whether solution `s`, numbered `j`, is the vault solution of order `i`
/// at the placeholder prices.
pub open spec fn vault_solved_by(s: Solution, i: int, j: int, orders: Seq<Order>, config: VaultConfig) -> bool {
    &&& 0 <= i < orders.len()
    &&& is_vault_solution(s, orders[i], s.prices@, config, j as u64)
    &&& are_vault_prices(orders, s.prices@)
}

/// Whether the solutions are, in order, those of the orders at the strictly
/// increasing positions `idx`, numbered from zero.
pub open spec fn is_vault_sequence(v: Seq<Solution>, idx: Seq<int>, orders: Seq<Order>, config: VaultConfig) -> bool {
    &&& idx.len() == v.len()
    &&& forall|a: int, b: int| 0 <= a < b < idx.len() ==> idx[a] < idx[b]
    &&& forall|j: int| 0 <= j < v.len() ==> #[trigger] vault_solved_by(v[j], idx[j], j, orders, config)
}

/// Whether the positions `idx` are exactly those of the orders whose trade
/// the signer signs.
pub open spec fn are_signable_positions(idx: Seq<int>, orders: Seq<Order>, config: VaultConfig) -> bool {
    forall|i: int|
        0 <= i < orders.len() ==> (idx.contains(i) <==> (#[trigger] vault_signature(orders[i], config)) is Some)
}

/// The vault solutions of an auction's orders: each order whose trade the
/// signer signs gets a solution, numbered from zero in the order of the
/// auction; an order whose signing fails is left out, and no other is.
pub fn solve(orders: &Vec<Order>, config: &VaultConfig) -> (r: Vec<Solution>)
    requires
        valid_secret(config.solver_key@),
    ensures
        r@.len() <= orders@.len(),
        exists|idx: Seq<int>|
            is_vault_sequence(r@, idx, orders@, *config) && are_signable_positions(idx, orders@, *config),
{
    let mut solutions: Vec<Solution> = Vec::new();
    let mut counter: u64 = 0;
    let ghost mut idx: Seq<int> = Seq::empty();
    let mut i: usize = 0;
    while i < orders.len()
        invariant
            i <= orders@.len(),
            valid_secret(config.solver_key@),
            solutions@.len() <= i,
            counter == solutions@.len(),
            is_vault_sequence(solutions@, idx, orders@, *config),
            forall|j: int| 0 <= j < idx.len() ==> #[trigger] idx[j] < i,
            forall|k: int|
                0 <= k < i ==> (idx.contains(k) <==> (#[trigger] vault_signature(orders@[k], *config)) is Some),
        decreases orders@.len() - i,
    {
        let prices = fake_prices(orders);
        let ghost p = prices@;
        let ghost idx0 = idx;
        match create_solution(&orders[i], prices, config, counter) {
            Ok(solution) => {
                let ghost before = solutions@;
                proof {
                    assert(solution.prices@ == p);
                    assert((before.len() as int) as u64 == counter);
                }
                solutions.push(solution);
                proof {
                    idx = idx.push(i as int);
                    assert forall|j: int| 0 <= j < solutions@.len() implies #[trigger] vault_solved_by(
                        solutions@[j],
                        idx[j],
                        j,
                        orders@,
                        *config,
                    ) by {
                        if j < before.len() {
                            assert(solutions@[j] == before[j]);
                        }
                    }
                    assert forall|k: int| 0 <= k <= i implies (idx.contains(k) <==> (
                    #[trigger] vault_signature(orders@[k], *config)) is Some) by {
                        if k < i {
                            if idx0.contains(k) {
                                let j = choose|j: int| 0 <= j < idx0.len() && idx0[j] == k;
                                assert(idx[j] == k);
                            }
                            if idx.contains(k) {
                                let j = choose|j: int| 0 <= j < idx.len() && idx[j] == k;
                                assert(j < idx0.len());
                                assert(idx0[j] == k);
                            }
                        } else {
                            assert(idx[idx.len() - 1] == k);
                        }
                    }
                }
                counter = counter + 1;
            },
            Err(_) => {
                proof {
                    assert(!idx.contains(i as int));
                }
            },
        }
        i = i + 1;
    }
    proof {
        assert(are_signable_positions(idx, orders@, *config));
    }
    solutions
}

} // verus!
