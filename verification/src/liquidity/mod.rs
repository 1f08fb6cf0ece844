//! Liquidity that solvers can use: limit orders backed by aggregator routes,
//! the interactions that settle them, and the token allowances they need.

pub mod kyber;
pub mod kyberswap;

use crate::abi::{address_word, address_word_of, function_selector, push_bytes, selector_of, u256_word, word};
use crate::address::Address;
use crate::uint::{modulus256, U256};
use vstd::string::StringSliceAdditionalSpecFns;
use vstd::prelude::*;

use self::kyber::KyberSettlementHandler;
use self::kyberswap::KyberSwapSettlementHandler;

verus! {

/// The 56-byte unique identifier of a protocol order.
#[derive(Clone, Copy, Debug, PartialEq, Eq)]
pub struct OrderUid {
    pub bytes: [u8; 56],
}

/// Which liquidity an order stands for.
#[derive(Clone, Debug, PartialEq, Eq)]
pub enum LiquidityOrderId {
    /// A protocol order.
    Protocol(OrderUid),
    /// A Kyber route, named by its tokens and amount.
    Kyber(String),
}

/// The identifier of a limit order.
#[derive(Clone, Debug, PartialEq, Eq)]
pub enum LimitOrderId {
    Liquidity(LiquidityOrderId),
}

/// Whether an order fixes its sell or its buy amount.
#[derive(Clone, Copy, Debug, PartialEq, Eq)]
pub enum OrderKind {
    Buy,
    Sell,
}

/// The venue a limit order comes from.
#[derive(Clone, Copy, Debug, PartialEq, Eq)]
pub enum Exchange {
    ZeroEx,
    Kyber,
}

/// How a limit order is settled.
#[derive(Clone, Debug, PartialEq, Eq)]
pub enum SettlementHandler {
    Kyber(KyberSettlementHandler),
    KyberSwap(KyberSwapSettlementHandler),
}

/// A limit order that solvers may fill.
#[derive(Clone, Debug, PartialEq, Eq)]
pub struct LimitOrder {
    pub id: LimitOrderId,
    pub sell_token: Address,
    pub buy_token: Address,
    pub sell_amount: U256,
    pub buy_amount: U256,
    pub kind: OrderKind,
    pub partially_fillable: bool,
    pub user_fee: U256,
    pub settlement_handling: SettlementHandler,
    pub exchange: Exchange,
}

/// Liquidity offered to solvers.
#[derive(Clone, Debug, PartialEq, Eq)]
pub enum Liquidity {
    LimitOrder(LimitOrder),
}

/// How much of a limit order a solution fills.
#[derive(Clone, Copy, Debug, PartialEq, Eq)]
pub struct LimitOrderExecution {
    pub filled: U256,
    pub fee: U256,
}

/// A contract call of a settlement: target, value and calldata.
#[derive(Clone, Debug, PartialEq, Eq)]
pub struct EncodedInteraction {
    pub target: Address,
    pub value: U256,
    pub call_data: Vec<u8>,
}

/// An ERC-20 approval of the largest amount for a spender.
#[derive(Clone, Copy, Debug, PartialEq, Eq)]
pub struct Approval {
    pub token: Address,
    pub spender: Address,
}

/// An interaction of the execution plan.
#[derive(Clone, Debug, PartialEq, Eq)]
pub enum PlannedInteraction {
    Approval(Approval),
    Call(EncodedInteraction),
}

/// One step of the execution plan, and whether the settlement may
/// internalize it.
#[derive(Clone, Debug, PartialEq, Eq)]
pub struct PlanStep {
    pub interaction: PlannedInteraction,
    pub internalizable: bool,
}

/// Whether a plan step calls `target` with `value` and `call_data`.
pub open spec fn is_call_step(
    step: PlanStep,
    target: Seq<u8>,
    value: nat,
    call_data: Seq<u8>,
    internalizable: bool,
) -> bool {
    &&& step.interaction matches PlannedInteraction::Call(i)
    &&& i.target@ == target
    &&& i.value@ == value
    &&& i.call_data@ == call_data
    &&& step.internalizable == internalizable
}

/// Collects the interactions of a settlement, in execution order.
#[derive(Clone, Debug, PartialEq, Eq)]
pub struct SettlementEncoder {
    pub execution_plan: Vec<PlanStep>,
}

impl SettlementEncoder {
    /// An encoder with an empty plan.
    pub fn new() -> (r: SettlementEncoder)
        ensures
            r.execution_plan@ == Seq::<PlanStep>::empty(),
    {
        SettlementEncoder { execution_plan: Vec::new() }
    }

    /// Appends an interaction that must not be internalized.
    pub fn append_to_execution_plan(&mut self, interaction: PlannedInteraction)
        ensures
            final(self).execution_plan@ == old(self).execution_plan@.push(
                PlanStep { interaction, internalizable: false },
            ),
    {
        self.execution_plan.push(PlanStep { interaction, internalizable: false });
    }

    /// Appends an interaction, stating whether it may be internalized.
    pub fn append_to_execution_plan_internalizable(
        &mut self,
        interaction: PlannedInteraction,
        internalizable: bool,
    )
        ensures
            final(self).execution_plan@ == old(self).execution_plan@.push(
                PlanStep { interaction, internalizable },
            ),
    {
        self.execution_plan.push(PlanStep { interaction, internalizable });
    }
}

/// An amount of a token.
#[derive(Clone, Copy, Debug, PartialEq, Eq)]
pub struct TokenAmount {
    pub token: Address,
    pub amount: U256,
}

/// The allowances that the settlement contract has granted a spender.
#[derive(Clone, Debug, PartialEq, Eq)]
pub struct Allowances {
    pub spender: Address,
    pub allowances: Vec<(Address, U256)>,
}

/// Why an approval cannot be decided.
#[derive(Clone, Copy, Debug, PartialEq, Eq)]
pub enum AllowanceError {
    /// No allowance is known for the token.
    MissingAllowance(Address),
}

/// The allowance recorded first for a token, if any.
pub open spec fn allowance_of(s: Seq<(Address, U256)>, token: Seq<u8>) -> Option<nat>
    decreases s.len(),
{
    if s.len() == 0 {
        None
    } else if s[0].0@ == token {
        Some(s[0].1@)
    } else {
        allowance_of(s.drop_first(), token)
    }
}

impl Allowances {
    /// The approval that spending `amount` of `token` needs: none when the
    /// allowance covers it, an approval of the spender otherwise; an error
    /// when no allowance is known for the token.
    pub fn approve_token(&self, token_amount: TokenAmount) -> (r: Result<
        Option<Approval>,
        AllowanceError,
    >)
        ensures
            match allowance_of(self.allowances@, token_amount.token@) {
                None => r == Err::<Option<Approval>, AllowanceError>(
                    AllowanceError::MissingAllowance(token_amount.token),
                ),
                Some(a) => if a < token_amount.amount@ {
                    r == Ok::<Option<Approval>, AllowanceError>(
                        Some(Approval { token: token_amount.token, spender: self.spender }),
                    )
                } else {
                    r == Ok::<Option<Approval>, AllowanceError>(None)
                },
            },
    {
        let mut i: usize = 0;
        proof {
            assert(self.allowances@.skip(0) =~= self.allowances@);
        }
        while i < self.allowances.len()
            invariant
                i <= self.allowances@.len(),
                allowance_of(self.allowances@, token_amount.token@) == allowance_of(
                    self.allowances@.skip(i as int),
                    token_amount.token@,
                ),
            decreases self.allowances@.len() - i,
        {
            let entry = &self.allowances[i];
            proof {
                let t = self.allowances@.skip(i as int);
                assert(t[0] == self.allowances@[i as int]);
                assert(t.drop_first() =~= self.allowances@.skip(i + 1));
            }
            if entry.0.same(&token_amount.token) {
                if entry.1.lt(&token_amount.amount) {
                    return Ok(Some(Approval { token: token_amount.token, spender: self.spender }));
                } else {
                    return Ok(None);
                }
            }
            i = i + 1;
        }
        proof {
            assert(self.allowances@.skip(i as int).len() == 0);
        }
        Err(AllowanceError::MissingAllowance(token_amount.token))
    }
}

impl Approval {
    /// The token call that grants the spender the largest allowance.
    pub fn encode(&self) -> (r: EncodedInteraction)
        ensures
            r.target == self.token,
            r.value@ == 0,
            r.call_data@ == selector_of("approve(address,uint256)".spec_bytes()) + address_word(
                self.spender@,
            ) + word((modulus256() - 1) as nat),
    {
        let mut data = function_selector("approve(address,uint256)");
        let spender = address_word_of(self.spender);
        push_bytes(&mut data, spender.as_slice());
        let amount = u256_word(U256::max_value());
        push_bytes(&mut data, amount.as_slice());
        EncodedInteraction { target: self.token, value: U256::zero(), call_data: data }
    }
}

} // verus!
