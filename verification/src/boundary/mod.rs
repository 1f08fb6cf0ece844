//! Conversion of solver liquidity into the driver's domain.

pub mod kyber;
pub mod kyberswap;
