use nyne_solvers::address::Address;
use nyne_solvers::boundary::kyberswap::{to_domain, WrongHandler};
use nyne_solvers::domain::kyberswap::{KyberSwapRoute as DomainRoute, TokenMismatch};
use nyne_solvers::domain::{Asset, Id, Kind, MaxInput};
use nyne_solvers::kyberswap_api::{addr2str, KyberSwapApiError};
use nyne_solvers::liquidity::kyber::KyberSettlementHandler;
use nyne_solvers::liquidity::kyberswap::{
    apply_slippage, KyberSwapRoute, KyberSwapSettlementError, KyberSwapSettlementHandler, RouteCache,
};
use nyne_solvers::liquidity::{
    Allowances, Exchange, LimitOrder, LimitOrderExecution, LimitOrderId, LiquidityOrderId, OrderKind,
    OrderUid, PlannedInteraction, SettlementEncoder, SettlementHandler,
};
use nyne_solvers::uint::U256;

fn addr(v: u64) -> Address {
    Address::from_low_u64_be(v)
}

fn amount(v: u128) -> U256 {
    U256::from_u128(v)
}

fn solver_route(encoded_data: Vec<u8>) -> KyberSwapRoute {
    KyberSwapRoute {
        token_in: addr(1),
        token_out: addr(2),
        amount_in: amount(1000),
        amount_out: amount(900),
        encoded_data,
        router_address: addr(99),
        gas_estimate: 150000,
    }
}

fn limit_order(handler: SettlementHandler, route: &KyberSwapRoute) -> LimitOrder {
    LimitOrder {
        id: LimitOrderId::Liquidity(LiquidityOrderId::Protocol(OrderUid { bytes: [0u8; 56] })),
        sell_token: route.token_in,
        buy_token: route.token_out,
        sell_amount: route.amount_in,
        buy_amount: route.amount_out,
        kind: OrderKind::Sell,
        partially_fillable: false,
        user_fee: U256::zero(),
        settlement_handling: handler,
        exchange: Exchange::ZeroEx,
    }
}

#[test]
fn test_to_domain_conversion() {
    let solver_route = solver_route(vec![0x12, 0x34]);
    let allowances = Allowances { spender: addr(99), allowances: Vec::new() };
    let handler = KyberSwapSettlementHandler {
        route: solver_route.clone(),
        meta_aggregator_router: addr(99),
        allowances,
    };
    let order = limit_order(SettlementHandler::KyberSwap(handler), &solver_route);

    let domain_liquidity = to_domain(Id(1), order).unwrap();

    assert_eq!(domain_liquidity.id, Id(1));
    assert_eq!(domain_liquidity.gas, amount(150000));
    match domain_liquidity.kind {
        Kind::KyberSwap(route) => {
            assert_eq!(route.token_in, solver_route.token_in);
            assert_eq!(route.token_out, solver_route.token_out);
            assert_eq!(route.amount_in, solver_route.amount_in);
            assert_eq!(route.amount_out, solver_route.amount_out);
            assert_eq!(route.router_address, solver_route.router_address);
        }
        _ => panic!("Expected KyberSwap liquidity kind"),
    }
}

#[test]
fn to_domain_refuses_other_handlers() {
    let route = solver_route(vec![]);
    let kyber = KyberSettlementHandler {
        method: nyne_solvers::kyber_api::MethodParameters {
            calldata: "0x1234".to_string(),
            value: "0".to_string(),
            to: "0x0000000000000000000000000000000000000005".to_string(),
        },
    };
    let order = limit_order(SettlementHandler::Kyber(kyber), &route);
    let err = to_domain(Id(3), order).unwrap_err();
    assert_eq!(err, WrongHandler);
    assert_eq!(err.message(), "not a kyberswap::KyberSwapSettlementHandler");
}

fn domain_route(encoded_data: Vec<u8>) -> DomainRoute {
    DomainRoute {
        token_in: addr(1),
        token_out: addr(2),
        amount_in: amount(1000),
        amount_out: amount(900),
        encoded_data,
        router_address: addr(99),
        gas_estimate: 150000,
    }
}

#[test]
fn test_to_interaction() {
    let route = domain_route(vec![0x12, 0x34, 0x56, 0x78]);
    let input = MaxInput(Asset { token: route.token_in, amount: route.amount_in });
    let interaction = route.to_interaction(&input).unwrap();
    assert_eq!(interaction.target, route.router_address);
    assert_eq!(interaction.value, U256::zero());
    assert_eq!(interaction.call_data, vec![0x12, 0x34, 0x56, 0x78]);
}

#[test]
fn test_token_mismatch_error() {
    let route = domain_route(vec![]);
    let wrong_input = MaxInput(Asset { token: addr(999), amount: route.amount_in });
    assert!(route.to_interaction(&wrong_input).is_err());
}

#[test]
fn token_mismatch_names_both_tokens() {
    let route = domain_route(vec![]);
    let wrong_input = MaxInput(Asset { token: addr(999), amount: route.amount_in });
    assert_eq!(
        route.to_interaction(&wrong_input).unwrap_err(),
        TokenMismatch { expected: addr(1), got: addr(999) }
    );
    assert_eq!(route.input_asset(), Asset { token: addr(1), amount: amount(1000) });
    assert_eq!(route.output_asset(), Asset { token: addr(2), amount: amount(900) });
}

#[test]
fn test_addr2str_formatting() {
    let addr = Address::from_low_u64_be(0x42);
    let formatted = addr2str(addr);
    assert_eq!(formatted, "0x0000000000000000000000000000000000000042");
}

#[test]
fn addr2str_uses_lower_case_digits() {
    let a = Address { bytes: [0xAB; 20] };
    assert_eq!(addr2str(a), format!("0x{}", "ab".repeat(20)));
}

fn cache_route() -> KyberSwapRoute {
    KyberSwapRoute {
        token_in: addr(1),
        token_out: addr(2),
        amount_in: amount(1000),
        amount_out: amount(900),
        encoded_data: vec![],
        router_address: Address::zero(),
        gas_estimate: 100000,
    }
}

const SECOND: u128 = 1_000_000_000;

#[test]
fn test_route_cache_expiry() {
    let mut cache = RouteCache::new();
    let token_in = addr(1);
    let token_out = addr(2);
    let amount = amount(1000);
    let route = cache_route();

    cache.insert(token_in, token_out, amount, route.clone());

    assert!(cache.get(token_in, token_out, amount, 60 * SECOND).is_some());
    assert!(cache.get(token_in, token_out, amount, 0).is_none());
}

#[test]
fn cache_finds_fresh_routes_and_drops_stale_ones() {
    let mut cache = RouteCache::new();
    let route = cache_route();
    cache.insert_at(addr(1), addr(2), amount(1000), route.clone(), 100 * SECOND);
    // Found until the time-to-live has passed.
    assert_eq!(cache.get_at(addr(1), addr(2), amount(1000), 159 * SECOND, 60 * SECOND), Some(route.clone()));
    assert_eq!(cache.get_at(addr(1), addr(2), amount(1000), 160 * SECOND, 60 * SECOND), None);
    // Another key, or another amount, is not found.
    assert_eq!(cache.get_at(addr(2), addr(1), amount(1000), 100 * SECOND, 60 * SECOND), None);
    assert_eq!(cache.get_at(addr(1), addr(2), amount(999), 100 * SECOND, 60 * SECOND), None);
    // Storing under another key leaves the first route alone.
    cache.insert_at(addr(3), addr(4), amount(5), route.clone(), 150 * SECOND);
    assert_eq!(cache.len(), 2);
    assert_eq!(cache.get_at(addr(1), addr(2), amount(1000), 120 * SECOND, 60 * SECOND), Some(route.clone()));
    // Storing under the same key replaces the route.
    let mut newer = route.clone();
    newer.amount_out = amount(950);
    cache.insert_at(addr(1), addr(2), amount(1000), newer.clone(), 170 * SECOND);
    assert_eq!(cache.len(), 2);
    assert_eq!(cache.get_at(addr(1), addr(2), amount(1000), 170 * SECOND, 60 * SECOND), Some(newer.clone()));
    // A cleanup at 215s keeps only what is younger than 60s then.
    cache.insert_at(addr(7), addr(8), amount(1), route.clone(), 100 * SECOND);
    cache.cleanup_at(215 * SECOND, 60 * SECOND);
    assert_eq!(cache.len(), 1);
    assert_eq!(cache.get_at(addr(1), addr(2), amount(1000), 215 * SECOND, 60 * SECOND), Some(newer));
    assert_eq!(cache.get_at(addr(3), addr(4), amount(5), 180 * SECOND, 60 * SECOND), None);
}

#[test]
fn cache_cleanup_with_clock_keeps_fresh_routes() {
    let mut cache = RouteCache::new();
    cache.insert(addr(1), addr(2), amount(1000), cache_route());
    cache.cleanup(3600 * SECOND);
    assert_eq!(cache.len(), 1);
    cache.cleanup(0);
    assert_eq!(cache.len(), 0);
}

#[test]
fn slippage_reduces_quoted_amount() {
    assert_eq!(apply_slippage("1000", 50), amount(995));
    assert_eq!(apply_slippage("1000", 0), amount(1000));
    assert_eq!(apply_slippage("1000", 10000), amount(0));
    assert_eq!(apply_slippage("1999", 50), amount(1989));
    // An unreadable quote counts as zero.
    assert_eq!(apply_slippage("12a", 50), amount(0));
    assert_eq!(apply_slippage("-5", 50), amount(0));
}

#[test]
fn kyberswap_handler_approves_then_calls() {
    let route = solver_route(vec![0xaa]);
    let handler = KyberSwapSettlementHandler {
        route: route.clone(),
        meta_aggregator_router: addr(99),
        allowances: Allowances { spender: addr(99), allowances: vec![(addr(1), amount(10))] },
    };
    let mut encoder = SettlementEncoder::new();
    handler
        .encode(LimitOrderExecution { filled: amount(1000), fee: U256::zero() }, &mut encoder)
        .unwrap();
    assert_eq!(encoder.execution_plan.len(), 2);
    match &encoder.execution_plan[0].interaction {
        PlannedInteraction::Approval(a) => {
            assert_eq!(a.token, addr(1));
            assert_eq!(a.spender, addr(99));
        }
        _ => panic!("an approval comes first"),
    }
    match &encoder.execution_plan[1].interaction {
        PlannedInteraction::Call(c) => {
            assert_eq!(c.target, addr(99));
            assert_eq!(c.call_data, vec![0xaa]);
        }
        _ => panic!("the router call comes second"),
    }
}

#[test]
fn kyberswap_handler_refuses_other_amounts_and_unknown_tokens() {
    let route = solver_route(vec![0xaa]);
    let handler = KyberSwapSettlementHandler {
        route: route.clone(),
        meta_aggregator_router: addr(99),
        allowances: Allowances { spender: addr(99), allowances: vec![(addr(1), amount(5000))] },
    };
    let mut encoder = SettlementEncoder::new();
    assert_eq!(
        handler.encode(LimitOrderExecution { filled: amount(999), fee: U256::zero() }, &mut encoder),
        Err(KyberSwapSettlementError::AmountMismatch { expected: amount(1000), got: amount(999) })
    );
    assert!(encoder.execution_plan.is_empty());
    // Enough allowance: only the call.
    handler
        .encode(LimitOrderExecution { filled: amount(1000), fee: U256::zero() }, &mut encoder)
        .unwrap();
    assert_eq!(encoder.execution_plan.len(), 1);

    let unknown = KyberSwapSettlementHandler {
        allowances: Allowances { spender: addr(99), allowances: Vec::new() },
        ..handler
    };
    let mut encoder = SettlementEncoder::new();
    assert_eq!(
        unknown.encode(LimitOrderExecution { filled: amount(1000), fee: U256::zero() }, &mut encoder),
        Err(KyberSwapSettlementError::MissingAllowance(addr(1)))
    );
}

#[test]
fn recorded_routes_are_found_and_stale_ones_dropped() {
    let mut cache = RouteCache::new();
    let route = cache_route();
    cache.insert_at(addr(5), addr(6), amount(1), route.clone(), 10 * SECOND);
    cache.record_route_at(addr(1), addr(2), amount(1000), route.clone(), 100 * SECOND, 60 * SECOND);
    assert_eq!(cache.len(), 1);
    assert_eq!(cache.get_at(addr(1), addr(2), amount(1000), 100 * SECOND, 60 * SECOND), Some(route.clone()));
    cache.record_route(addr(3), addr(4), amount(7), route.clone(), 60 * SECOND);
    assert!(cache.get(addr(3), addr(4), amount(7), 60 * SECOND).is_some());
}

#[test]
fn slippage_saturates_at_the_largest_amount() {
    let max = "115792089237316195423570985008687907853269984665640564039457584007913129639935";
    let expected = U256 {
        limbs: [5342177083746286147, 2685845937132110715, 2980993842311463541, 1844674407370955],
    };
    assert_eq!(apply_slippage(max, 50), expected);
    assert_eq!(apply_slippage(max, 0), expected);
    // One more than the largest amount does not read.
    let too_big = "115792089237316195423570985008687907853269984665640564039457584007913129639936";
    assert_eq!(apply_slippage(too_big, 50), U256::zero());
}

#[test]
fn fetched_routes_are_kept_and_errors_leave_the_cache() {
    let mut cache = RouteCache::new();
    let failed = cache.keep_fetched(addr(1), addr(2), amount(1000), Err(KyberSwapApiError::NoRouteFound), 60 * SECOND);
    assert_eq!(failed, Err(KyberSwapApiError::NoRouteFound));
    assert_eq!(cache.len(), 0);
    let kept = cache.keep_fetched(addr(1), addr(2), amount(1000), Ok(cache_route()), 60 * SECOND);
    assert_eq!(kept, Ok(cache_route()));
    assert_eq!(cache.len(), 1);
    assert_eq!(cache.get(addr(1), addr(2), amount(1000), 60 * SECOND), Some(cache_route()));
}
