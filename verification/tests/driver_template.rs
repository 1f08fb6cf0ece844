use nyne_solvers::abi::function_selector;
use nyne_solvers::address::Address;
use nyne_solvers::domain::{Asset, Id, Kind as LiquidityKind};
use nyne_solvers::liquidity::OrderUid;
use nyne_solvers::private_lp::{AuctionOrder, Class, Kind};
use nyne_solvers::solution::{Fee, Order, OrderClass, Partial, Side};
use nyne_solvers::template::{
    build_order_sorting_strategies, create_domain_solution, create_domain_solution_with_nonces,
    fake_solve, get_fake_liquidity, CompetitionOrder, OrderSignature, SignedAuctionOrder, SigningScheme, liquidity_sources_notifier, map_orders, map_tokens, AuctionToken,
    receive_notification, reveal_calldata, settle, NotifierConfig, OrderPriorityStrategy, RevealRequest,
    SettleRequest, SimulatorBackend, SimulatorConfig, SimulatorSetup, SortingStrategy, StdDuration,
    TimeDelta, simulator,
};
use nyne_solvers::uint::U256;

fn addr(v: u64) -> Address {
    Address::from_low_u64_be(v)
}

fn amount(v: u128) -> U256 {
    U256::from_u128(v)
}

fn hex_address(text: &str) -> Address {
    let mut bytes = [0u8; 20];
    for i in 0..20 {
        bytes[i] = u8::from_str_radix(&text[2 + 2 * i..4 + 2 * i], 16).unwrap();
    }
    Address { bytes }
}

fn order(uid: u8, side: Side, kind: OrderClass, partial: Partial) -> Order {
    Order {
        uid: OrderUid { bytes: [uid; 56] },
        side,
        kind,
        sell: Asset { token: addr(10), amount: amount(1000) },
        buy: Asset { token: addr(20), amount: amount(900) },
        valid_to: 1_700_000_000,
        partial,
    }
}

#[test]
fn fake_liquidity_is_one_pool_between_the_tokens() {
    let liquidity = get_fake_liquidity(addr(10), addr(20));
    assert_eq!(liquidity.len(), 1);
    assert_eq!(liquidity[0].id, Id(0));
    assert_eq!(liquidity[0].gas, amount(100_000));
    match liquidity[0].kind {
        LiquidityKind::UniswapV2(pool) => {
            assert_eq!(pool.address, addr(1));
            assert_eq!(pool.router, addr(2));
            assert_eq!(pool.reserves.first, Asset { token: addr(10), amount: amount(1_000_000_000_000_000_000_000) });
            assert_eq!(pool.reserves.second, Asset { token: addr(20), amount: amount(1_000_000_000_000_000_000_000) });
        }
        _ => panic!("a constant-product pool"),
    }
}

#[test]
fn notifier_defaults_to_no_sources() {
    let n = liquidity_sources_notifier::<String>(None, 998);
    assert_eq!(n.chain, 998);
    assert_eq!(n.config.liquorice, None);
    let configured = NotifierConfig { liquorice: Some("https://liquorice".to_string()) };
    let n = liquidity_sources_notifier(Some(configured.clone()), 1);
    assert_eq!(n.config, configured);
    assert_eq!(n.chain, 1);
}

#[test]
fn fake_quote_fills_every_order_twice_at_one_ether() {
    let orders = vec![
        order(1, Side::Sell, OrderClass::Market, Partial::No),
        order(2, Side::Buy, OrderClass::Limit, Partial::Yes { available: amount(300) }),
    ];
    let s = fake_solve(&orders);
    assert_eq!(s.id, 0);
    assert_eq!(s.gas, None);
    let ether = amount(1_000_000_000_000_000_000);
    assert_eq!(s.prices, vec![(addr(10), ether), (addr(20), ether), (addr(10), ether), (addr(20), ether)]);
    assert_eq!(s.trades.len(), 4);
    assert_eq!(s.trades[0].executed, amount(1000));
    assert_eq!(s.trades[0].fee, Fee::Static);
    // A partially fillable order is filled with what is available.
    assert_eq!(s.trades[1].executed, amount(300));
    assert_eq!(s.trades[1].fee, Fee::Dynamic(U256::zero()));
    // The vault trades move the target amounts.
    assert_eq!(s.trades[2].executed, amount(1000));
    assert_eq!(s.trades[3].executed, amount(900));
    assert_eq!(s.trades[3].fee, Fee::Static);
    let vault = hex_address("0x24be1e421e38a9ef728c5c36a69d724820ab58ed");
    assert_eq!(s.interactions.len(), 2);
    let i = &s.interactions[1];
    assert_eq!(i.target, vault);
    assert_eq!(i.allowances[0].spender, vault);
    assert_eq!(i.allowances[0].amount, amount(900));
    assert_eq!(i.inputs[0], Asset { token: addr(10), amount: amount(900) });
    assert_eq!(i.outputs[0], Asset { token: addr(20), amount: amount(900) });
    let selector =
        function_selector("exchange(bytes,address,uint256,address,uint256,uint32,uint256,bytes[])");
    assert_eq!(&i.call_data[..4], &selector[..]);
    // Eight heads; the 56-byte uid padded to 64 with its length; an empty array.
    assert_eq!(i.call_data.len(), 4 + 8 * 32 + 32 + 64 + 32);
    // The uid's offset is the first head: right after the eight heads.
    assert_eq!(i.call_data[4 + 31], 0x00);
    assert_eq!(i.call_data[4 + 30], 0x01);
}

#[test]
fn domain_solution_signs_every_vault_trade() {
    let key = {
        let mut k = [0u8; 32];
        k[31] = 7;
        k
    };
    let orders = vec![
        order(1, Side::Sell, OrderClass::Limit, Partial::No),
        order(2, Side::Buy, OrderClass::Market, Partial::No),
    ];
    let tokens = vec![addr(10), addr(20)];
    let d = create_domain_solution_with_nonces(&orders, &tokens, addr(0xeeee), addr(0x5e77), 998, &key, &vec![5, 6])
        .unwrap();
    let ether = amount(1_000_000_000_000_000_000);
    let native = Address { bytes: [0xee; 20] };
    assert_eq!(d.solution.prices, vec![(addr(10), ether), (addr(20), ether), (native, ether), (addr(0xeeee), ether)]);
    assert_eq!(d.solved.prices, d.solution.prices);
    assert_eq!(d.solution.trades[0].executed, amount(1000));
    assert_eq!(d.solution.trades[1].executed, amount(900));
    assert_eq!(d.solution.trades[1].fee, Fee::Dynamic(U256::zero()));
    assert_eq!(d.solved.trades[1].1.executed_sell, amount(1000));
    assert_eq!(d.solved.trades[1].1.executed_buy, amount(900));
    let vault = hex_address("0xdf2160bf40869b75fb9634ddb51779719937a450");
    let i = &d.solution.interactions[0];
    assert_eq!(i.target, vault);
    assert_eq!(i.allowances[0].amount, amount(1000));
    assert_eq!(i.inputs[0], orders[0].sell);
    assert_eq!(i.outputs[0], orders[0].buy);
    let selector = function_selector(
        "exchange(bytes,address,uint256,address,uint256,uint256,uint256,uint256,address,address,bytes[])",
    );
    assert_eq!(&i.call_data[..4], &selector[..]);
    // Eleven heads, the uid, then the array with one 65-byte signature.
    assert_eq!(i.call_data.len(), 4 + 11 * 32 + (32 + 64) + (32 + 32 + 32 + 96));
    // The nonce is the eighth head.
    assert_eq!(i.call_data[4 + 8 * 32 - 1], 5);
    // Another nonce gives another signature.
    let other = create_domain_solution_with_nonces(&orders, &tokens, addr(0xeeee), addr(0x5e77), 998, &key, &vec![9, 6])
        .unwrap();
    assert_ne!(other.solution.interactions[0].call_data, i.call_data);
    assert_eq!(other.solution.interactions[1].call_data, d.solution.interactions[1].call_data);
    let random = create_domain_solution(&orders, &tokens, addr(0xeeee), addr(0x5e77), 998, &key).unwrap();
    assert_eq!(random.solution.interactions.len(), 2);
}

#[test]
fn sorting_strategies_follow_the_configuration() {
    let strategies = vec![
        OrderPriorityStrategy::ExternalPrice,
        OrderPriorityStrategy::CreationTimestamp { max_order_age: Some(StdDuration { secs: 90, nanos: 5 }) },
        OrderPriorityStrategy::OwnQuotes { max_order_age: None },
    ];
    assert_eq!(
        build_order_sorting_strategies(&strategies),
        vec![
            SortingStrategy::ExternalPrice,
            SortingStrategy::CreationTimestamp { max_order_age: Some(TimeDelta { secs: 90, nanos: 5 }) },
            SortingStrategy::OwnQuotes { max_order_age: None },
        ]
    );
    let longest = StdDuration { secs: 9_223_372_036_854_775, nanos: 807_000_000 };
    assert_eq!(
        build_order_sorting_strategies(&vec![OrderPriorityStrategy::OwnQuotes { max_order_age: Some(longest) }]),
        vec![SortingStrategy::OwnQuotes {
            max_order_age: Some(TimeDelta { secs: 9_223_372_036_854_775, nanos: 807_000_000 })
        }]
    );
}

#[test]
fn auction_orders_become_competition_orders() {
    let o = AuctionOrder {
        uid: OrderUid { bytes: [3; 56] },
        sell_token: addr(1),
        buy_token: addr(2),
        sell_amount: amount(10),
        buy_amount: amount(20),
        kind: Kind::Buy,
        class: Class::Limit,
        valid_to: 77,
    };
    let signed = SignedAuctionOrder {
        order: o,
        signing_scheme: SigningScheme::Eip1271,
        signature: vec![0xaa, 0xbb, 0xcc],
        owner: addr(9),
    };
    let mapped = map_orders(&vec![signed]);
    assert_eq!(
        mapped,
        vec![CompetitionOrder {
            order: Order {
                uid: o.uid,
                side: Side::Buy,
                kind: OrderClass::Limit,
                sell: Asset { token: addr(1), amount: amount(10) },
                buy: Asset { token: addr(2), amount: amount(20) },
                valid_to: 77,
                partial: Partial::No,
            },
            signature: OrderSignature {
                scheme: SigningScheme::Eip1271,
                data: vec![0xaa, 0xbb, 0xcc],
                signer: addr(9),
            },
            receiver: None,
            created: 0,
            pre_interactions: vec![],
            post_interactions: vec![],
        }]
    );
    let tokens = map_tokens(&vec![(
        addr(5),
        AuctionToken {
            decimals: Some(18),
            symbol: Some("WHYPE".to_string()),
            reference_price: Some(amount(3)),
            available_balance: amount(4),
            trusted: true,
        },
    )]);
    assert_eq!(tokens.len(), 1);
    assert_eq!(tokens[0].address, addr(5));
    assert_eq!(tokens[0].symbol, Some("WHYPE".to_string()));
    assert_eq!(tokens[0].price, Some(amount(3)));
    assert_eq!(tokens[0].decimals, Some(18));
    assert!(tokens[0].trusted);
}

#[test]
fn template_endpoints_answer_placeholders() {
    let r = reveal_calldata(RevealRequest { solution_id: 1, auction_id: 2 });
    assert_eq!(r.calldata.internalized, "0x1234");
    assert_eq!(r.calldata.uninternalized, "0x1234");
    assert_eq!(settle(SettleRequest { solution_id: 1, submission_deadline_latest_block: 5, auction_id: 2 }), "");
    assert_eq!(receive_notification("settled".to_string()), "");
}

#[test]
fn simulator_follows_the_configuration() {
    let node = simulator::<String, String, u64>(None, false, None);
    assert_eq!(node, SimulatorSetup { backend: SimulatorBackend::Ethereum, access_lists: true, fixed_gas: None });
    let tenderly = simulator::<String, String, u64>(
        Some(SimulatorConfig::Tenderly("tenderly".to_string())),
        true,
        Some(1_000_000),
    );
    assert_eq!(tenderly.backend, SimulatorBackend::Tenderly("tenderly".to_string()));
    assert!(!tenderly.access_lists);
    assert_eq!(tenderly.fixed_gas, Some(1_000_000));
    let enso = simulator::<String, String, u64>(Some(SimulatorConfig::Enso("enso".to_string())), false, None);
    assert_eq!(enso.backend, SimulatorBackend::Enso("enso".to_string()));
    assert!(enso.access_lists);
}
