//! Verified core of the Nyne Protocol solvers: Kyber and KyberSwap aggregator
//! routing, liquidity conversion, settlement encoding and solution building.

pub mod uint;
pub mod text;
pub mod address;
pub mod kyber_api;
pub mod kyberswap_api;
pub mod liquidity;
pub mod abi;
pub mod domain;
pub mod boundary;
pub mod solution;
pub mod signing;
pub mod private_lp;
pub mod template;
