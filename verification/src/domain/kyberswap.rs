//! KyberSwap Aggregator routes in the driver's domain.

use crate::address::Address;
use crate::domain::{Asset, Interaction, MaxInput};
use crate::uint::U256;
use vstd::prelude::*;

verus! {

/// A KyberSwap route with encoded transaction data.
#[derive(Clone, Debug, PartialEq, Eq)]
pub struct KyberSwapRoute {
    /// Source token address.
    pub token_in: Address,
    /// Destination token address.
    pub token_out: Address,
    /// Input amount.
    pub amount_in: U256,
    /// Expected output amount.
    pub amount_out: U256,
    /// Encoded calldata for the router.
    pub encoded_data: Vec<u8>,
    /// Router address.
    pub router_address: Address,
    /// Estimated gas cost.
    pub gas_estimate: u64,
}

/// The input token does not match the route's.
#[derive(Clone, Copy, Debug, PartialEq, Eq)]
pub struct TokenMismatch {
    pub expected: Address,
    pub got: Address,
}

impl KyberSwapRoute {
    /// The router call of the route, sending no native value; fails when
    /// the input is another token than the route's.
    pub fn to_interaction(&self, input: &MaxInput) -> (r: Result<Interaction, TokenMismatch>)
        ensures
            input.0.token@ != self.token_in@ ==> r == Err::<Interaction, TokenMismatch>(
                TokenMismatch { expected: self.token_in, got: input.0.token },
            ),
            input.0.token@ == self.token_in@ ==> (r matches Ok(i) && i.target == self.router_address
                && i.value@ == 0 && i.call_data@ == self.encoded_data@),
    {
        if !input.0.token.same(&self.token_in) {
            return Err(TokenMismatch { expected: self.token_in, got: input.0.token });
        }
        let data = self.encoded_data.clone();
        proof {
            assert(data@ =~= self.encoded_data@);
        }
        Ok(Interaction { target: self.router_address, value: U256::zero(), call_data: data })
    }

    /// The asset the swap takes in.
    pub fn input_asset(&self) -> (r: Asset)
        ensures
            r == (Asset { token: self.token_in, amount: self.amount_in }),
    {
        Asset { token: self.token_in, amount: self.amount_in }
    }

    /// The asset the swap is expected to give out.
    pub fn output_asset(&self) -> (r: Asset)
        ensures
            r == (Asset { token: self.token_out, amount: self.amount_out }),
    {
        Asset { token: self.token_out, amount: self.amount_out }
    }
}

} // verus!
