use nyne_solvers::address::{Address, H256};
use nyne_solvers::kyber_api::{
    is_successful_response, KyberExtraFee, KyberRouteData, KyberRouteResponse, KyberRouteSummary, resolve_address, Order, OrderMetadata, OrderRecord, RemainingAmountError,
    ZeroExSignature,
};
use nyne_solvers::uint::U256;

fn order(taker_amount: u128, maker_amount: u128) -> Order {
    Order {
        chain_id: 0,
        expiry: 0,
        fee_recipient: Address::zero(),
        maker: Address::zero(),
        maker_amount,
        maker_token: Address::zero(),
        pool: H256::zero(),
        salt: U256::zero(),
        sender: Address::zero(),
        signature: ZeroExSignature { r: H256::zero(), s: H256::zero(), v: 0, signature_type: 0 },
        taker: Address::zero(),
        taker_amount,
        taker_token: Address::zero(),
        taker_token_fee_amount: 0,
        verifying_contract: Address::zero(),
    }
}

fn metadata(remaining_fillable_taker_amount: u128) -> OrderMetadata {
    OrderMetadata { created_at: 0, order_hash: Vec::new(), remaining_fillable_taker_amount }
}

#[test]
fn compute_remaining_maker_amount() {
    let bogous_order = OrderRecord::new(order(u128::MAX - 1, u128::MAX), metadata(u128::MAX));
    assert!(bogous_order.remaining_maker_amount().is_err());

    let biggest_unfilled_order = OrderRecord::new(order(u128::MAX, u128::MAX), metadata(u128::MAX));
    assert_eq!(u128::MAX, biggest_unfilled_order.remaining_maker_amount().unwrap());

    let biggest_partially_filled_order =
        OrderRecord::new(order(u128::MAX, u128::MAX), metadata(u128::MAX / 2));
    assert_eq!(u128::MAX / 2, biggest_partially_filled_order.remaining_maker_amount().unwrap());
}

#[test]
fn remaining_maker_amount_error_is_named() {
    let record = OrderRecord::new(order(10, 20), metadata(11));
    let err = record.remaining_maker_amount().unwrap_err();
    assert_eq!(err, RemainingAmountError::RemainingExceedsTotal);
    assert_eq!(err.message(), "remaining taker amount bigger than total taker amount");
}

#[test]
fn remaining_maker_amount_scales_down_and_rounds() {
    // 7 of 10 taker units left: 7 * 33 / 10 = 23.1, rounded down.
    let record = OrderRecord::new(order(10, 33), metadata(7));
    assert_eq!(record.remaining_maker_amount().unwrap(), 23);
    let filled = OrderRecord::new(order(10, 33), metadata(0));
    assert_eq!(filled.remaining_maker_amount().unwrap(), 0);
    let unfilled = OrderRecord::new(order(10, 33), metadata(10));
    assert_eq!(unfilled.remaining_maker_amount().unwrap(), 33);
}

#[test]
fn remaining_maker_amount_grows_with_what_remains() {
    let mut last = 0u128;
    for remaining in 0..=12u128 {
        let record = OrderRecord::new(order(12, 1000), metadata(remaining));
        let now = record.remaining_maker_amount().unwrap();
        assert!(now >= last);
        assert!(now <= 1000);
        last = now;
    }
}

#[test]
fn resolve_address_maps_zero_address_to_eth() {
    assert_eq!(resolve_address("0x0000000000000000000000000000000000000000"), "ETH");
    assert_eq!(resolve_address("ETH"), "ETH");
    let token = "0x9b498C3c8A0b8CD8BA1D9851d40D186F1872b44E";
    assert_eq!(resolve_address(token), token);
    assert_eq!(resolve_address(&resolve_address(token)), resolve_address(token));
}

#[test]
fn successful_response_needs_code_zero_and_known_message() {
    let ok = KyberRouteResponse {
        code: 0,
        message: "successfully".to_string(),
        data: empty_route_data(),
        request_id: String::new(),
    };
    assert!(is_successful_response(&ok));
    let ok2 = KyberRouteResponse { message: "OK".to_string(), ..ok.clone() };
    assert!(is_successful_response(&ok2));
    let bad_code = KyberRouteResponse { code: 4001, ..ok.clone() };
    assert!(!is_successful_response(&bad_code));
    let bad_message = KyberRouteResponse { message: "error".to_string(), ..ok };
    assert!(!is_successful_response(&bad_message));
}

fn empty_route_data() -> KyberRouteData {
    KyberRouteData {
        route_summary: KyberRouteSummary {
            token_in: String::new(),
            amount_in: String::new(),
            amount_in_usd: String::new(),
            token_out: String::new(),
            amount_out: String::new(),
            amount_out_usd: String::new(),
            gas: String::new(),
            gas_price: String::new(),
            gas_usd: String::new(),
            l1_fee_usd: String::new(),
            extra_fee: KyberExtraFee {
                fee_amount: String::new(),
                charge_fee_by: String::new(),
                is_in_bps: false,
                fee_receiver: String::new(),
            },
            route: Vec::new(),
            route_id: String::new(),
            checksum: String::new(),
            timestamp: 0,
        },
        router_address: String::new(),
    }
}

#[test]
fn routing_query_names_its_parameters() {
    let query = nyne_solvers::kyber_api::KyberRoutingApiQuery::default();
    let pairs = query.query_pairs();
    assert_eq!(
        pairs,
        vec![
            ("tokenIn".to_string(), "0x9b498C3c8A0b8CD8BA1D9851d40D186F1872b44E".to_string()),
            ("tokenOut".to_string(), "0xb50A96253aBDF803D85efcDce07Ad8becBc52BD5".to_string()),
            ("amountIn".to_string(), "1000000000000000000".to_string()),
        ]
    );
    let zero = nyne_solvers::kyber_api::KyberRoutingApiQuery {
        token_in: "0x0000000000000000000000000000000000000000".to_string(),
        ..query
    };
    assert_eq!(zero.resolve().token_in, "ETH");
    assert_eq!(zero.resolve().token_out, "0xb50A96253aBDF803D85efcDce07Ad8becBc52BD5");
}
