# nyne_solvers

The solver side of the Nyne Protocol on HyperEVM, as a Verus library: the
Kyber and KyberSwap aggregator integrations, the liquidity they offer, the
settlement of that liquidity, solutions built straight from routes, and the
vault solvers that trade orders against a private-liquidity vault.

## Layout

- `src/` — the verified library.
  - `uint`, `address`, `text`, `abi`, `signing`: 256-bit amounts, addresses,
    decimal and hexadecimal text, ABI encoding, Keccak-256 and secp256k1
    signatures (the last two computed by `alloy`).
  - `kyber_api`, `kyberswap_api`: the aggregator APIs' data and the
    computations around their requests and responses.
  - `liquidity`: aggregator routes as limit orders, their settlement, the
    KyberSwap route cache and its laws.
  - `domain`, `boundary`: the driver's view of that liquidity.
  - `solution`: solutions straight from KyberSwap routes, and the driver's
    vault solutions.
  - `private_lp`: the private-liquidity solver and its settings.
  - `template`: the vault driver template.
- `tests/` — tests of the library.
- `app/` — the HTTP service of the private-liquidity solver, the aggregator
  API clients and the liquidity-collection loops, around the library.
