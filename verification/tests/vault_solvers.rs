use nyne_solvers::abi::function_selector;
use nyne_solvers::address::Address;
use nyne_solvers::liquidity::OrderUid;
use nyne_solvers::domain::Asset;
use nyne_solvers::solution::hyperliquid::{solve as solve_vault_orders, VaultConfig};
use nyne_solvers::solution::{Order, OrderClass, Partial, Side};
use nyne_solvers::private_lp::{
    overlay_file_config, solver_config, Config, ConfigError, FileConfig, fake_prices, Auction, AuctionOrder, Class, HyperLiquidSolver, Kind, SolveError, SolverConfig,
};
use nyne_solvers::uint::U256;

const KEY: &str = "0x0000000000000000000000000000000000000000000000000000000000000001";

fn addr(v: u64) -> Address {
    Address::from_low_u64_be(v)
}

fn amount(v: u128) -> U256 {
    U256::from_u128(v)
}

fn config(key: &str) -> SolverConfig {
    SolverConfig {
        settlement_contract: addr(0x5e77),
        vault_address: addr(0x7a17),
        solver_private_key: key.to_string(),
        chain_id: 998,
    }
}

fn auction_order(uid: u8, sell: u64, buy: u64, kind: Kind) -> AuctionOrder {
    AuctionOrder {
        uid: OrderUid { bytes: [uid; 56] },
        sell_token: addr(sell),
        buy_token: addr(buy),
        sell_amount: amount(1000),
        buy_amount: amount(900),
        kind,
        class: Class::Market,
        valid_to: 1_700_000_000,
    }
}

fn placeholder() -> U256 {
    amount(100_000_000_000_000_000_000)
}

#[test]
fn solver_rejects_invalid_keys() {
    assert_eq!(HyperLiquidSolver::new(config("not a key")).unwrap_err(), SolveError::InvalidKey);
    // The zero scalar is no secret key.
    let zero = "0x0000000000000000000000000000000000000000000000000000000000000000";
    assert_eq!(HyperLiquidSolver::new(config(zero)).unwrap_err(), SolveError::InvalidKey);
    // Too short.
    assert_eq!(HyperLiquidSolver::new(config("0x01")).unwrap_err(), SolveError::InvalidKey);
    assert!(HyperLiquidSolver::new(config(KEY)).is_ok());
    let without_prefix = &KEY[2..];
    assert!(HyperLiquidSolver::new(config(without_prefix)).is_ok());
}

#[test]
fn fake_prices_list_every_token_at_placeholder() {
    let auction = Auction {
        id: Some(1),
        orders: vec![auction_order(1, 10, 20, Kind::Sell), auction_order(2, 20, 30, Kind::Buy)],
    };
    let prices = fake_prices(&auction);
    assert_eq!(
        prices,
        vec![
            (addr(10), placeholder()),
            (addr(20), placeholder()),
            (addr(20), placeholder()),
            (addr(30), placeholder()),
        ]
    );
}

#[test]
fn sell_order_trades_one_to_one_against_the_vault() {
    let solver = HyperLiquidSolver::new(config(KEY)).unwrap();
    let order = auction_order(7, 10, 20, Kind::Sell);
    let auction = Auction { id: Some(42), orders: vec![order] };
    let s = solver.create_solution_with_nonce(&auction, &order, 3, 1234).unwrap();
    assert_eq!(s.id, 3);
    assert_eq!(s.gas, Some(250_000));
    assert_eq!(s.trades.len(), 1);
    assert_eq!(s.trades[0].order, order.uid);
    assert_eq!(s.trades[0].executed_amount, amount(1000));
    assert_eq!(s.trades[0].fee, Some(U256::zero()));
    assert_eq!(s.interactions.len(), 1);
    let i = &s.interactions[0];
    assert_eq!(i.target, addr(0x7a17));
    assert_eq!(i.value, U256::zero());
    assert_eq!(i.allowances.len(), 1);
    assert_eq!(i.allowances[0].token, addr(10));
    assert_eq!(i.allowances[0].spender, addr(0x7a17));
    assert_eq!(i.allowances[0].amount, U256::max_value());
    assert_eq!(i.inputs[0].token, addr(10));
    assert_eq!(i.inputs[0].amount, amount(1000));
    assert_eq!(i.outputs[0].token, addr(20));
    assert_eq!(i.outputs[0].amount, amount(1000));
    assert!(!i.internalize);
    let selector =
        function_selector("exchange(bytes32,address,uint256,address,uint256,uint32,uint256,bytes[])");
    assert_eq!(&i.call_data[..4], &selector[..]);
    // Selector, eight heads, then one 65-byte signature as `bytes[]`: its
    // count, its offset, its length and the padded signature.
    assert_eq!(i.call_data.len(), 4 + 8 * 32 + 32 + 32 + 32 + 96);
    // The nonce is the seventh head.
    let nonce_word = &i.call_data[4 + 6 * 32..4 + 7 * 32];
    assert_eq!(&nonce_word[30..], &[0x04, 0xd2]);
    assert!(s.prices.iter().all(|(_, p)| *p == placeholder()));
}

#[test]
fn buy_order_puts_in_its_buy_amount() {
    let solver = HyperLiquidSolver::new(config(KEY)).unwrap();
    let order = auction_order(8, 10, 20, Kind::Buy);
    let auction = Auction { id: None, orders: vec![order] };
    let s = solver.create_solution_with_nonce(&auction, &order, 0, 1).unwrap();
    assert_eq!(s.trades[0].executed_amount, amount(900));
    // A quote (no auction identifier) leaves the fee to the order.
    assert_eq!(s.trades[0].fee, None);
    let i = &s.interactions[0];
    assert_eq!(i.inputs[0].token, addr(20));
    assert_eq!(i.inputs[0].amount, amount(900));
    assert_eq!(i.outputs[0].token, addr(10));
    assert_eq!(i.outputs[0].amount, amount(900));
    // The vault may spend the sell token.
    assert_eq!(i.allowances[0].token, addr(10));
}

#[test]
fn orders_outside_the_auction_have_no_price() {
    let solver = HyperLiquidSolver::new(config(KEY)).unwrap();
    let listed = auction_order(1, 10, 20, Kind::Sell);
    let auction = Auction { id: Some(1), orders: vec![listed] };
    let unknown_sell = auction_order(2, 77, 20, Kind::Sell);
    assert_eq!(
        solver.create_solution_with_nonce(&auction, &unknown_sell, 0, 1).unwrap_err(),
        SolveError::MissingSellPrice
    );
    let unknown_buy = auction_order(3, 10, 77, Kind::Sell);
    assert_eq!(
        solver.create_solution_with_nonce(&auction, &unknown_buy, 0, 1).unwrap_err(),
        SolveError::MissingBuyPrice
    );
    let unknown_in_buy = auction_order(4, 10, 77, Kind::Buy);
    assert_eq!(
        solver.create_solution_with_nonce(&auction, &unknown_in_buy, 0, 1).unwrap_err(),
        SolveError::MissingBuyPrice
    );
    let unknown_out_buy = auction_order(5, 77, 20, Kind::Buy);
    assert_eq!(
        solver.create_solution_with_nonce(&auction, &unknown_out_buy, 0, 1).unwrap_err(),
        SolveError::MissingSellPrice
    );
}

#[test]
fn solve_numbers_solutions_from_zero() {
    let solver = HyperLiquidSolver::new(config(KEY)).unwrap();
    let orders = vec![
        auction_order(1, 10, 20, Kind::Sell),
        auction_order(2, 20, 30, Kind::Buy),
        auction_order(3, 30, 10, Kind::Sell),
    ];
    let auction = Auction { id: Some(5), orders: orders.clone() };
    let solutions = solver.solve(&auction);
    assert_eq!(solutions.len(), 3);
    for (i, s) in solutions.iter().enumerate() {
        assert_eq!(s.id, i as u64);
        assert_eq!(s.trades[0].order, orders[i].uid);
    }
    let single = solver.create_solution(&auction, &orders[0], 9).unwrap();
    assert_eq!(single.id, 9);
}

#[test]
fn file_settings_fill_in_what_the_command_line_leaves_out() {
    let cli = Config {
        config: Some("hypervault.toml".to_string()),
        port: 8000,
        settlement_contract: None,
        vault_address: Some(addr(2)),
        solver_private_key: None,
        chain_id: 1,
    };
    let file = FileConfig {
        port: Some(9000),
        settlement_contract: Some(addr(1)),
        vault_address: Some(addr(3)),
        solver_private_key: Some(KEY.to_string()),
        chain_id: Some(998),
    };
    let merged = overlay_file_config(cli.clone(), file.clone());
    assert_eq!(merged.port, 9000);
    assert_eq!(merged.settlement_contract, Some(addr(1)));
    // The command line wins where it gives a value.
    assert_eq!(merged.vault_address, Some(addr(2)));
    assert_eq!(merged.solver_private_key, Some(KEY.to_string()));
    assert_eq!(merged.chain_id, 998);
    // A port other than the default is kept.
    let other_port = overlay_file_config(Config { port: 8123, ..cli.clone() }, file.clone());
    assert_eq!(other_port.port, 8123);
    let c = solver_config(merged).unwrap();
    assert_eq!(c.settlement_contract, addr(1));
    assert_eq!(c.vault_address, addr(2));
    assert_eq!(c.chain_id, 998);
    let err = solver_config(cli.clone()).unwrap_err();
    assert_eq!(err, ConfigError::MissingSettlementContract);
    assert_eq!(err.message(), "settlement_contract is required (CLI or Config File)");
    let no_vault = Config { settlement_contract: Some(addr(1)), vault_address: None, ..cli.clone() };
    assert_eq!(solver_config(no_vault).unwrap_err(), ConfigError::MissingVaultAddress);
    let no_key = Config { settlement_contract: Some(addr(1)), ..cli };
    let err = solver_config(no_key).unwrap_err();
    assert_eq!(err, ConfigError::MissingPrivateKey);
    assert_eq!(err.message(), "solver_private_key is required (CLI or Config File)");
}

#[test]
fn driver_vault_generator_numbers_its_solutions() {
    let mut key = [0u8; 32];
    key[31] = 1;
    let config = VaultConfig { vault_address: addr(0x7a17), settlement_contract: addr(0x5e77), chain_id: 998, solver_key: key };
    let orders: Vec<Order> = (1..=3u8)
        .map(|u| Order {
            uid: OrderUid { bytes: [u; 56] },
            side: Side::Sell,
            kind: OrderClass::Market,
            sell: Asset { token: addr(10), amount: amount(1000) },
            buy: Asset { token: addr(20), amount: amount(900) },
            valid_to: 0,
            partial: Partial::No,
        })
        .collect();
    let solutions = solve_vault_orders(&orders, &config);
    assert_eq!(solutions.len(), 3);
    for (i, s) in solutions.iter().enumerate() {
        assert_eq!(s.id, i as u64);
        assert_eq!(s.trades[0].order, orders[i].uid);
        assert_eq!(s.gas, Some(U256::zero()));
        assert_eq!(s.prices.len(), 6);
    }
}

#[test]
fn overlaying_a_file_twice_changes_nothing() {
    let cli = Config {
        config: None,
        port: 8000,
        settlement_contract: None,
        vault_address: None,
        solver_private_key: Some(KEY.to_string()),
        chain_id: 1,
    };
    let file = FileConfig {
        port: Some(8000),
        settlement_contract: Some(addr(1)),
        vault_address: None,
        solver_private_key: Some("other".to_string()),
        chain_id: Some(998),
    };
    let once = overlay_file_config(cli, file.clone());
    let twice = overlay_file_config(once.clone(), file);
    assert_eq!(once, twice);
    assert_eq!(once.solver_private_key, Some(KEY.to_string()));
}
