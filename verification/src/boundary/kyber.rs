//! Kyber limit orders as driver liquidity.

use crate::domain::kyber::KyberSwap;
use crate::domain::{Id, Kind, Liquidity};
use crate::liquidity::{LimitOrder, SettlementHandler};
use crate::uint::U256;
use vstd::prelude::*;

verus! {

/// The gas of settling one 0x-style limit order, which a Kyber swap is
/// estimated to cost as well.
pub const GAS_PER_ZEROEX_ORDER: u64 = 66_358u64;

/// The liquidity is not backed by the expected settlement handler.
#[derive(Clone, Copy, Debug, PartialEq, Eq)]
pub struct WrongHandler;

impl WrongHandler {
    /// The error's message.
    pub fn message(&self) -> (r: String)
        ensures
            r@ == "not a KyberSettlementHandler"@,
    {
        String::from_str("not a KyberSettlementHandler")
    }
}

/// Converts a solver Kyber limit order to driver liquidity with the given
/// identifier, costing as much gas as a 0x order; fails for a limit order
/// that another handler settles.
pub fn to_domain(id: Id, limit_order: LimitOrder) -> (r: Result<Liquidity, WrongHandler>)
    ensures
        match limit_order.settlement_handling {
            SettlementHandler::Kyber(h) => r matches Ok(l) && l.id == id && l.gas@
                == GAS_PER_ZEROEX_ORDER && l.kind == Kind::Kyber(KyberSwap { method: h.method }),
            _ => r == Err::<Liquidity, WrongHandler>(WrongHandler),
        },
{
    match limit_order.settlement_handling {
        SettlementHandler::Kyber(h) => Ok(
            Liquidity {
                id,
                gas: U256::from_u64(GAS_PER_ZEROEX_ORDER),
                kind: Kind::Kyber(KyberSwap { method: h.method }),
            },
        ),
        _ => Err(WrongHandler),
    }
}

} // verus!
