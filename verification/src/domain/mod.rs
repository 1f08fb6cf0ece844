//! The driver's domain: assets, contract interactions and liquidity.

pub mod kyber;
pub mod kyberswap;

use crate::address::Address;
use crate::uint::U256;
use vstd::prelude::*;

use self::kyber::KyberSwap;
use self::kyberswap::KyberSwapRoute;

verus! {

/// An amount of a token.
#[derive(Clone, Copy, Debug, PartialEq, Eq)]
pub struct Asset {
    pub token: Address,
    pub amount: U256,
}

/// A contract call: target, value and calldata.
#[derive(Clone, Debug, PartialEq, Eq)]
pub struct Interaction {
    pub target: Address,
    pub value: U256,
    pub call_data: Vec<u8>,
}

/// The most that may be put into a liquidity source.
#[derive(Clone, Copy, Debug, PartialEq, Eq)]
pub struct MaxInput(pub Asset);

/// The identifier of a liquidity source within an auction.
#[derive(Clone, Copy, Debug, PartialEq, Eq)]
pub struct Id(pub usize);

/// The reserves of a constant-product pool.
#[derive(Clone, Copy, Debug, PartialEq, Eq)]
pub struct Reserves {
    pub first: Asset,
    pub second: Asset,
}

/// A constant-product pool and its router.
#[derive(Clone, Copy, Debug, PartialEq, Eq)]
pub struct UniswapV2Pool {
    pub address: Address,
    pub router: Address,
    pub reserves: Reserves,
}

/// The kinds of liquidity.
#[derive(Clone, Debug, PartialEq, Eq)]
pub enum Kind {
    UniswapV2(UniswapV2Pool),
    Kyber(KyberSwap),
    KyberSwap(KyberSwapRoute),
}

/// A liquidity source with its estimated gas cost.
#[derive(Clone, Debug, PartialEq, Eq)]
pub struct Liquidity {
    pub id: Id,
    pub gas: U256,
    pub kind: Kind,
}

} // verus!
