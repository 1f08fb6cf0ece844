//! Kyber swaps in the driver's domain.

use crate::domain::{Interaction, MaxInput};
use crate::kyber_api::MethodParameters;
use crate::kyberswap_api::value_of;
use crate::liquidity::kyber::{decode_method, router_fits, KyberCallError};
use crate::text::{hex_decode, trim_all_0x};
use vstd::prelude::*;

verus! {

/// A built Kyber swap.
#[derive(Clone, Debug, PartialEq, Eq)]
pub struct KyberSwap {
    pub method: MethodParameters,
}

impl KyberSwap {
    /// The router call of the swap: calldata and router decoded from
    /// hexadecimal (leading "0x" removed), value read as hexadecimal or zero.
    /// The input limit does not change the call.
    pub fn to_interaction(&self, _input: &MaxInput) -> (r: Result<Interaction, KyberCallError>)
        requires
            router_fits(self.method),
        ensures
            hex_decode(trim_all_0x(self.method.calldata@)) is None ==> r matches Err(
                KyberCallError::InvalidCalldata(_),
            ),
            hex_decode(trim_all_0x(self.method.calldata@)) is Some && hex_decode(
                trim_all_0x(self.method.to@),
            ) is None ==> r matches Err(KyberCallError::InvalidRouter(_)),
            r is Ok <==> (hex_decode(trim_all_0x(self.method.calldata@)) is Some && hex_decode(
                trim_all_0x(self.method.to@),
            ) is Some),
            r matches Ok(i) ==> i.call_data@ == hex_decode(trim_all_0x(self.method.calldata@))->0
                && i.target@ == hex_decode(trim_all_0x(self.method.to@))->0 && i.value@
                == value_of(self.method.value@),
    {
        let call = decode_method(&self.method)?;
        Ok(Interaction { target: call.target, value: call.value, call_data: call.call_data })
    }
}

} // verus!
