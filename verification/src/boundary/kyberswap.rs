//! KyberSwap limit orders as driver liquidity.

use crate::domain::kyberswap::KyberSwapRoute;
use crate::domain::{Id, Kind, Liquidity};
use crate::liquidity::{LimitOrder, SettlementHandler};
use crate::uint::U256;
use vstd::prelude::*;

verus! {

/// The liquidity is not backed by the expected settlement handler.
#[derive(Clone, Copy, Debug, PartialEq, Eq)]
pub struct WrongHandler;

impl WrongHandler {
    /// The error's message.
    pub fn message(&self) -> (r: String)
        ensures
            r@ == "not a kyberswap::KyberSwapSettlementHandler"@,
    {
        String::from_str("not a kyberswap::KyberSwapSettlementHandler")
    }
}

/// Converts a solver KyberSwap limit order to driver liquidity with the
/// given identifier: the route it settles, costing the route's gas
/// estimate; fails for a limit order that another handler settles.
pub fn to_domain(id: Id, limit_order: LimitOrder) -> (r: Result<Liquidity, WrongHandler>)
    ensures
        match limit_order.settlement_handling {
            SettlementHandler::KyberSwap(h) => r matches Ok(l) && l.id == id && l.gas@
                == h.route.gas_estimate && (l.kind matches Kind::KyberSwap(route) && route.token_in
                == h.route.token_in && route.token_out == h.route.token_out && route.amount_in
                == h.route.amount_in && route.amount_out == h.route.amount_out
                && route.encoded_data@ == h.route.encoded_data@ && route.router_address
                == h.route.router_address && route.gas_estimate == h.route.gas_estimate),
            _ => r == Err::<Liquidity, WrongHandler>(WrongHandler),
        },
{
    match limit_order.settlement_handling {
        SettlementHandler::KyberSwap(h) => {
            let solver_route = h.route;
            let route = KyberSwapRoute {
                token_in: solver_route.token_in,
                token_out: solver_route.token_out,
                amount_in: solver_route.amount_in,
                amount_out: solver_route.amount_out,
                encoded_data: solver_route.encoded_data,
                router_address: solver_route.router_address,
                gas_estimate: solver_route.gas_estimate,
            };
            Ok(
                Liquidity {
                    id,
                    gas: U256::from_u64(route.gas_estimate),
                    kind: Kind::KyberSwap(route),
                },
            )
        },
        _ => Err(WrongHandler),
    }
}

} // verus!
