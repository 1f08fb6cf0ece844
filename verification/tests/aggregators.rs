use nyne_solvers::abi::function_selector;
use nyne_solvers::address::Address;
use nyne_solvers::boundary::kyber::{
    to_domain as kyber_to_domain, WrongHandler as KyberWrongHandler, GAS_PER_ZEROEX_ORDER,
};
use nyne_solvers::domain::{Asset, Id as DomainId, Kind as DomainKind, MaxInput};
use nyne_solvers::liquidity::kyberswap::KyberSwapSettlementHandler;
use nyne_solvers::kyber_api::{MethodParameters, OutputChange};
use nyne_solvers::kyberswap_api::{
    build_request_body, check_build_response, check_route_response, check_status, classify_status,
    route_query_pairs, BuildRouteRequest, BuildRouteResponse, ExtraFee, KyberSwapApiError,
    ResponseStatus, RouteBuildResponse, RouteBuildResponseData, RouteRequest,
    RouteResponse, RouteSummary, RouteSummaryData,
};
use nyne_solvers::liquidity::kyber::{
    assemble_liquidity, decode_method, method_into_liquidity, quote_build, quote_requests, FetchedSwap,
    KyberCallError,
    KyberSettlementHandler,
};
use nyne_solvers::liquidity::kyberswap::route_from_build;
use nyne_solvers::liquidity::{
    Allowances, LimitOrder, Exchange, LimitOrderExecution, LimitOrderId, Liquidity, LiquidityOrderId, OrderKind,
    OrderUid, PlannedInteraction, SettlementEncoder, SettlementHandler,
};
use nyne_solvers::solution::kyberswap::{
    assemble_solutions, calculate_prices, plan_solution, satisfies_order, FetchedRoute, SolutionError,
};
use nyne_solvers::solution::{Fee, Order, OrderClass, Partial, Side};
use nyne_solvers::uint::U256;

fn addr(v: u64) -> Address {
    Address::from_low_u64_be(v)
}

fn amount(v: u128) -> U256 {
    U256::from_u128(v)
}

fn summary(amount_in: &str, amount_out: &str, gas: &str) -> RouteSummary {
    RouteSummary {
        token_in: "0x0000000000000000000000000000000000000001".to_string(),
        amount_in: amount_in.to_string(),
        amount_in_usd: String::new(),
        token_out: "0x0000000000000000000000000000000000000002".to_string(),
        amount_out: amount_out.to_string(),
        amount_out_usd: String::new(),
        gas: gas.to_string(),
        gas_price: String::new(),
        gas_usd: String::new(),
        l1_fee_usd: String::new(),
        extra_fee: ExtraFee {
            fee_amount: String::new(),
            charge_fee_by: String::new(),
            is_in_bps: false,
            fee_receiver: String::new(),
        },
        route: Vec::new(),
        route_id: "r".to_string(),
        checksum: "c".to_string(),
        timestamp: 0,
    }
}

#[test]
fn function_selectors_are_keccak_prefixes() {
    assert_eq!(function_selector("transfer(address,uint256)"), vec![0xa9, 0x05, 0x9c, 0xbb]);
    assert_eq!(function_selector("approve(address,uint256)"), vec![0x09, 0x5e, 0xa7, 0xb3]);
}

#[test]
fn statuses_are_classified() {
    assert_eq!(classify_status(429, true), ResponseStatus::RateLimited);
    assert_eq!(classify_status(404, true), ResponseStatus::NoRouteFound);
    assert_eq!(classify_status(404, false), ResponseStatus::Failure);
    assert_eq!(classify_status(200, false), ResponseStatus::Success);
    assert_eq!(classify_status(500, true), ResponseStatus::Failure);
    assert_eq!(check_status(200, true, "OK", ""), Ok(()));
    assert_eq!(check_status(429, true, "Too Many Requests", ""), Err(KyberSwapApiError::RateLimited));
    assert_eq!(check_status(404, true, "Not Found", ""), Err(KyberSwapApiError::NoRouteFound));
    assert_eq!(
        check_status(500, true, "500 Internal Server Error", "boom"),
        Err(KyberSwapApiError::InvalidResponse("HTTP 500 Internal Server Error: boom".to_string()))
    );
}

#[test]
fn route_request_query_names_its_fields() {
    let request = RouteRequest {
        token_in: addr(1),
        token_out: addr(2),
        amount_in: amount(1000000),
        gas_include: Some(true),
        gas_price: Some(amount(50)),
    };
    let pairs = route_query_pairs(&request);
    let names: Vec<&str> = pairs.iter().map(|(n, _)| n.as_str()).collect();
    assert_eq!(names, vec!["tokenIn", "tokenOut", "amountIn", "gasInclude", "gasPrice"]);
    assert_eq!(pairs[0].1, "0x0000000000000000000000000000000000000001");
    assert_eq!(pairs[2].1, "1000000");
    assert_eq!(pairs[3].1, "true");
    assert_eq!(pairs[4].1, "50");
    let bare = RouteRequest { gas_include: None, gas_price: None, ..request };
    assert_eq!(route_query_pairs(&bare).len(), 3);
}

#[test]
fn route_and_build_responses_are_checked() {
    let ok = RouteResponse {
        code: 0,
        message: "successfully".to_string(),
        data: RouteSummaryData { route_summary: summary("1000", "900", "100000"), router_address: String::new() },
        request_id: String::new(),
    };
    assert_eq!(check_route_response(ok.clone()), Ok(summary("1000", "900", "100000")));
    let failed = RouteResponse { code: 4008, message: "route not found".to_string(), ..ok };
    assert_eq!(
        check_route_response(failed),
        Err(KyberSwapApiError::InvalidResponse(
            "KyberSwap API error: code=4008, message=route not found".to_string()
        ))
    );
    let data = RouteBuildResponseData {
        amount_in: String::new(),
        amount_in_usd: String::new(),
        amount_out: String::new(),
        amount_out_usd: String::new(),
        gas: String::new(),
        gas_usd: String::new(),
        additional_cost_usd: String::new(),
        additional_cost_message: String::new(),
        output_change: OutputChange { amount: String::new(), level: 0 },
        data: "0xe21fd0e9".to_string(),
        router_address: "0x6131B5fae19EA4f9D964eAc0408E4408b66337b5".to_string(),
        transaction_value: "0x10".to_string(),
    };
    let build = RouteBuildResponse { code: 0, message: String::new(), data: data.clone(), request_id: None };
    let b = check_build_response(build).unwrap();
    assert_eq!(b.encoded_data, "0xe21fd0e9");
    assert_eq!(b.router_address.bytes[0], 0x61);
    assert_eq!(b.router_address.bytes[19], 0xb5);
    assert_eq!(b.value, amount(16));
    let unreadable = RouteBuildResponseData {
        router_address: "nowhere".to_string(),
        transaction_value: "lots".to_string(),
        ..data.clone()
    };
    let b = check_build_response(RouteBuildResponse { code: 0, message: String::new(), data: unreadable, request_id: None })
        .unwrap();
    assert_eq!(b.router_address, Address::zero());
    assert_eq!(b.value, U256::zero());
    let err = check_build_response(RouteBuildResponse { code: -1, message: "bad".to_string(), data, request_id: None });
    assert_eq!(
        err,
        Err(KyberSwapApiError::InvalidResponse("KyberSwap API error: code=-1, message=bad".to_string()))
    );
}

#[test]
fn build_request_body_formats_addresses() {
    let body = build_request_body(BuildRouteRequest {
        route_summary: summary("1", "2", "3"),
        slippage: 50,
        sender: addr(0xab),
        recipient: addr(0xcd),
        deadline: 99,
    });
    assert_eq!(body.sender, "0x00000000000000000000000000000000000000ab");
    assert_eq!(body.recipient, "0x00000000000000000000000000000000000000cd");
    assert_eq!(body.deadline, 99);
    assert_eq!(body.slippage_tolerance, 50);
}

#[test]
fn built_route_applies_slippage_and_decodes_calldata() {
    let build = BuildRouteResponse { encoded_data: "0x1234".to_string(), router_address: addr(9), value: U256::zero() };
    let route = route_from_build(addr(1), addr(2), amount(1000), &summary("1000", "2000", "150000"), build, 50).unwrap();
    assert_eq!(route.amount_out, amount(1990));
    assert_eq!(route.encoded_data, vec![0x12, 0x34]);
    assert_eq!(route.router_address, addr(9));
    assert_eq!(route.gas_estimate, 150000);
    let bad = BuildRouteResponse { encoded_data: "0xzz".to_string(), router_address: addr(9), value: U256::zero() };
    assert!(matches!(
        route_from_build(addr(1), addr(2), amount(1000), &summary("1000", "2000", "x"), bad, 50),
        Err(KyberSwapApiError::InvalidResponse(_))
    ));
}

#[test]
fn quote_requests_ask_both_directions() {
    let requests = quote_requests(&vec![(addr(1), addr(2))]);
    assert_eq!(requests.len(), 2);
    assert_eq!(requests[0].token_in, addr(1));
    assert_eq!(requests[1].token_in, addr(2));
    assert_eq!(requests[0].query.token_in, "0x0000000000000000000000000000000000000001");
    assert_eq!(requests[1].query.token_out, "0x0000000000000000000000000000000000000001");
    assert_eq!(requests[0].query.amount_in, "1000000000000000000");
}

#[test]
fn built_kyber_swap_becomes_a_limit_order() {
    let method = MethodParameters {
        calldata: "0xdeadbeef".to_string(),
        value: "0x0".to_string(),
        to: "0x00000000000000000000000000000000000000ff".to_string(),
    };
    let l = method_into_liquidity(method.clone(), addr(1), addr(2), amount(1000), amount(900)).unwrap();
    let Liquidity::LimitOrder(o) = l;
    assert_eq!(
        o.id,
        LimitOrderId::Liquidity(LiquidityOrderId::Kyber(
            "kyber_0x0000000000000000000000000000000000000001_0x0000000000000000000000000000000000000002_1000".to_string()
        ))
    );
    assert_eq!(o.kind, OrderKind::Sell);
    assert_eq!(o.exchange, Exchange::Kyber);
    assert_eq!(o.settlement_handling, SettlementHandler::Kyber(KyberSettlementHandler { method: method.clone() }));
    assert!(method_into_liquidity(method.clone(), addr(1), addr(2), U256::zero(), amount(900)).is_none());
    assert!(method_into_liquidity(method, addr(1), addr(2), amount(1), U256::zero()).is_none());
}

#[test]
fn kyber_method_decodes_to_a_router_call() {
    let method = MethodParameters {
        calldata: "0xdeadbeef".to_string(),
        value: "0x10".to_string(),
        to: "0x00000000000000000000000000000000000000ff".to_string(),
    };
    let call = decode_method(&method).unwrap();
    assert_eq!(call.call_data, vec![0xde, 0xad, 0xbe, 0xef]);
    assert_eq!(call.target, addr(0xff));
    assert_eq!(call.value, amount(16));
    let handler = KyberSettlementHandler { method: method.clone() };
    let mut encoder = SettlementEncoder::new();
    handler.encode(LimitOrderExecution { filled: amount(1), fee: U256::zero() }, &mut encoder).unwrap();
    assert_eq!(encoder.execution_plan.len(), 1);
    assert!(!encoder.execution_plan[0].internalizable);
    assert!(matches!(encoder.execution_plan[0].interaction, PlannedInteraction::Call(_)));
    let bad = MethodParameters { calldata: "0xz".to_string(), ..method.clone() };
    let err = decode_method(&bad).unwrap_err();
    assert!(matches!(err, KyberCallError::InvalidCalldata(_)));
    assert_eq!(err.message(), "failed to decode Kyber calldata from build_swap");
    let bad_router = MethodParameters { to: "0xqq".to_string(), ..method };
    let err = decode_method(&bad_router).unwrap_err();
    assert!(matches!(err, KyberCallError::InvalidRouter(_)));
    assert_eq!(err.message(), "failed to decode Kyber router address");
}

fn sell_order() -> Order {
    Order {
        uid: OrderUid { bytes: [1; 56] },
        side: Side::Sell,
        kind: OrderClass::Limit,
        sell: Asset { token: addr(10), amount: amount(1000) },
        buy: Asset { token: addr(20), amount: amount(900) },
        valid_to: 0,
        partial: Partial::No,
    }
}

#[test]
fn routes_must_satisfy_orders() {
    assert!(satisfies_order(amount(900), amount(900), Side::Sell));
    assert!(satisfies_order(amount(950), amount(900), Side::Sell));
    assert!(!satisfies_order(amount(899), amount(900), Side::Sell));
    assert!(satisfies_order(amount(900), amount(1000), Side::Buy));
    assert!(!satisfies_order(amount(1001), amount(1000), Side::Buy));
}

#[test]
fn clearing_prices_value_both_sides_alike() {
    // Amounts are decimal: 1000 in, 900 out.
    let prices = calculate_prices(&summary("1000", "900", "0"), &sell_order()).unwrap();
    let base = amount(1_000_000_000_000_000_000);
    assert_eq!(prices[0], (addr(10), base));
    // 10^18 * 1000 / 900, rounded down.
    assert_eq!(prices[1], (addr(20), amount(1_111_111_111_111_111_111)));
    assert_eq!(calculate_prices(&summary("xyz", "900", "0"), &sell_order()), Err(SolutionError::InvalidAmount));
}

#[test]
fn planned_solution_calls_the_router() {
    let build = BuildRouteResponse { encoded_data: "0xabcd".to_string(), router_address: addr(7), value: amount(3) };
    // All route amounts, and the gas, are decimal.
    let s = plan_solution(&sell_order(), &summary("1000", "900", "500"), &build, 4).unwrap();
    assert_eq!(s.id, 4);
    assert_eq!(s.gas, Some(amount(500)));
    assert_eq!(s.trades[0].executed, amount(1000));
    assert_eq!(s.trades[0].fee, Fee::Dynamic(U256::zero()));
    assert_eq!(s.prices[1], (addr(20), amount(1_111_111_111_111_111_111)));
    let i = &s.interactions[0];
    assert_eq!(i.target, addr(7));
    assert_eq!(i.value, amount(3));
    assert_eq!(i.call_data, vec![0xab, 0xcd]);
    assert_eq!(i.allowances[0].amount, U256::max_value());
    assert_eq!(i.inputs[0], Asset { token: addr(10), amount: amount(1000) });
    assert_eq!(i.outputs[0], Asset { token: addr(20), amount: amount(900) });
    // Unreadable gas counts as zero; an amount that is not decimal fails.
    let s = plan_solution(&sell_order(), &summary("1000", "900", "gas"), &build, 4).unwrap();
    assert_eq!(s.gas, Some(U256::zero()));
    assert_eq!(
        plan_solution(&sell_order(), &summary("3e8", "384", "500"), &build, 4),
        Err(SolutionError::InvalidAmount)
    );
    let bad = BuildRouteResponse { encoded_data: "0xabc".to_string(), ..build };
    assert!(matches!(
        plan_solution(&sell_order(), &summary("1000", "900", "500"), &bad, 4),
        Err(SolutionError::InvalidCalldata(_))
    ));
}

#[test]
fn quotes_lead_to_hour_long_build_requests() {
    let response = nyne_solvers::kyber_api::KyberRouteResponse {
        code: 0,
        message: "successfully".to_string(),
        data: nyne_solvers::kyber_api::KyberRouteData {
            route_summary: kyber_summary("1000", "900"),
            router_address: String::new(),
        },
        request_id: String::new(),
    };
    let b = quote_build(response.clone(), addr(0xab), 1_700_000_000).unwrap();
    assert_eq!(b.sell_amount, amount(1000));
    assert_eq!(b.buy_amount, amount(900));
    assert_eq!(b.request.sender, "0x00000000000000000000000000000000000000ab");
    assert_eq!(b.request.recipient, "0x00000000000000000000000000000000000000ab");
    assert_eq!(b.request.deadline, 1_700_003_600);
    assert_eq!(b.request.slippage_tolerance, 50);
    assert_eq!(b.request.route_summary.amount_in, "1000");
    let mut unreadable = response;
    unreadable.data.route_summary.amount_out = "n/a".to_string();
    assert!(quote_build(unreadable, addr(0xab), 0).is_none());
}

fn kyber_summary(amount_in: &str, amount_out: &str) -> nyne_solvers::kyber_api::KyberRouteSummary {
    nyne_solvers::kyber_api::KyberRouteSummary {
        token_in: String::new(),
        amount_in: amount_in.to_string(),
        amount_in_usd: String::new(),
        token_out: String::new(),
        amount_out: amount_out.to_string(),
        amount_out_usd: String::new(),
        gas: String::new(),
        gas_price: String::new(),
        gas_usd: String::new(),
        l1_fee_usd: String::new(),
        extra_fee: nyne_solvers::kyber_api::KyberExtraFee {
            fee_amount: String::new(),
            charge_fee_by: String::new(),
            is_in_bps: false,
            fee_receiver: String::new(),
        },
        route: Vec::new(),
        route_id: String::new(),
        checksum: String::new(),
        timestamp: 0,
    }
}

#[test]
fn kyber_limit_orders_become_driver_liquidity() {
    let method = MethodParameters {
        calldata: "0xdeadbeef".to_string(),
        value: "0x0".to_string(),
        to: "0x00000000000000000000000000000000000000ff".to_string(),
    };
    let Liquidity::LimitOrder(order) =
        method_into_liquidity(method.clone(), addr(1), addr(2), amount(1000), amount(900)).unwrap();
    let l = kyber_to_domain(DomainId(4), order.clone()).unwrap();
    assert_eq!(l.id, DomainId(4));
    assert_eq!(l.gas, amount(GAS_PER_ZEROEX_ORDER as u128));
    assert_eq!(l.gas, amount(66_358));
    match &l.kind {
        DomainKind::Kyber(swap) => {
            assert_eq!(swap.method, method);
            let call = swap
                .to_interaction(&MaxInput(Asset { token: addr(1), amount: amount(1000) }))
                .unwrap();
            assert_eq!(call.target, addr(0xff));
            assert_eq!(call.call_data, vec![0xde, 0xad, 0xbe, 0xef]);
            assert_eq!(call.value, U256::zero());
        }
        _ => panic!("a Kyber swap"),
    }
    // A KyberSwap-settled order is not Kyber liquidity.
    let other = LimitOrder {
        settlement_handling: SettlementHandler::KyberSwap(KyberSwapSettlementHandler {
            route: nyne_solvers::liquidity::kyberswap::KyberSwapRoute {
                token_in: addr(1),
                token_out: addr(2),
                amount_in: amount(1),
                amount_out: amount(1),
                encoded_data: vec![],
                router_address: addr(3),
                gas_estimate: 0,
            },
            meta_aggregator_router: addr(3),
            allowances: Allowances { spender: addr(3), allowances: vec![] },
        }),
        ..order
    };
    let err = kyber_to_domain(DomainId(5), other).unwrap_err();
    assert_eq!(err, KyberWrongHandler);
    assert_eq!(err.message(), "not a KyberSettlementHandler");
}

#[test]
fn solutions_are_assembled_from_usable_routes_only() {
    let build = BuildRouteResponse { encoded_data: "0xabcd".to_string(), router_address: addr(7), value: U256::zero() };
    let bad_build = BuildRouteResponse { encoded_data: "0xabc".to_string(), ..build.clone() };
    // The order asks for at least 900 out; 900 satisfies it, 899 does not.
    let good = summary("1000", "900", "0");
    let short = summary("1000", "899", "0");
    let orders = vec![sell_order(); 6];
    let fetched = vec![
        FetchedRoute { route: Some(good.clone()), build: Some(build.clone()) },
        FetchedRoute { route: None, build: None },
        FetchedRoute { route: Some(short), build: Some(build.clone()) },
        FetchedRoute { route: Some(good.clone()), build: None },
        FetchedRoute { route: Some(good.clone()), build: Some(bad_build) },
        FetchedRoute { route: Some(good), build: Some(build) },
    ];
    let solutions = assemble_solutions(&orders, &fetched);
    assert_eq!(solutions.len(), 2);
    assert_eq!(solutions[0].id, 0);
    assert_eq!(solutions[1].id, 1);
    assert_eq!(solutions[1].interactions[0].call_data, vec![0xab, 0xcd]);
}

#[test]
fn liquidity_is_assembled_from_built_quotes() {
    let quote = |amount_in: &str, amount_out: &str| nyne_solvers::kyber_api::KyberRouteResponse {
        code: 0,
        message: "successfully".to_string(),
        data: nyne_solvers::kyber_api::KyberRouteData {
            route_summary: kyber_summary(amount_in, amount_out),
            router_address: String::new(),
        },
        request_id: String::new(),
    };
    let method = MethodParameters {
        calldata: "0x01".to_string(),
        value: "0x0".to_string(),
        to: "0x00000000000000000000000000000000000000ff".to_string(),
    };
    let requests = quote_requests(&vec![(addr(1), addr(2)), (addr(3), addr(4))]);
    let fetched = vec![
        FetchedSwap { quote: Some(quote("1000", "900")), method: Some(method.clone()) },
        FetchedSwap { quote: None, method: None },
        FetchedSwap { quote: Some(quote("0", "900")), method: Some(method.clone()) },
        FetchedSwap { quote: Some(quote("10", "20")), method: Some(method.clone()) },
    ];
    let liquidity = assemble_liquidity(&requests, fetched);
    assert_eq!(liquidity.len(), 2);
    let Liquidity::LimitOrder(first) = &liquidity[0];
    assert_eq!(first.sell_token, addr(1));
    assert_eq!(first.sell_amount, amount(1000));
    assert_eq!(first.buy_amount, amount(900));
    let Liquidity::LimitOrder(second) = &liquidity[1];
    assert_eq!(second.sell_token, addr(4));
    assert_eq!(second.buy_token, addr(3));
    assert_eq!(second.sell_amount, amount(10));
    assert_eq!(second.buy_amount, amount(20));
}

#[test]
fn kyber_route_ids_name_full_addresses() {
    let method = MethodParameters {
        calldata: "0x01".to_string(),
        value: "0x0".to_string(),
        to: "0x00000000000000000000000000000000000000ff".to_string(),
    };
    let mut middle = [0u8; 20];
    middle[10] = 0x55;
    middle[19] = 0x01;
    let id = |token_in: Address| {
        let Liquidity::LimitOrder(o) =
            method_into_liquidity(method.clone(), token_in, addr(2), amount(1000), amount(900)).unwrap();
        o.id
    };
    // Tokens that agree in their first and last two bytes still get different ids.
    assert_ne!(id(addr(1)), id(Address { bytes: middle }));
    // Amounts are decimal: a hexadecimal-looking quote does not read.
    let response = nyne_solvers::kyber_api::KyberRouteResponse {
        code: 0,
        message: "successfully".to_string(),
        data: nyne_solvers::kyber_api::KyberRouteData {
            route_summary: kyber_summary("3e8", "900"),
            router_address: String::new(),
        },
        request_id: String::new(),
    };
    assert!(quote_build(response, addr(0xab), 0).is_none());
}
