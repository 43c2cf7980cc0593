//! The interface of a liquidity source: what a pool reports about its fee and
//! its reserves. Pricing itself is up to the implementations.

use vstd::prelude::*;

verus! {

/// `sp_arithmetic::FixedU128`: an unsigned fixed-point number. Nothing is
/// claimed of its contents; values of it are only passed along.
#[verifier::external_type_specification]
#[verifier::external_body]
pub struct ExFixedU128(sp_arithmetic::FixedU128);

/// A fractional quantity: a fee rate or an amount of tokens.
pub type Fractional = sp_arithmetic::FixedU128;

/// A source of liquidity for one trading pair.
pub trait LiquiditySource {
    /// Fee for swapping tokens on pool.
    fn fee() -> Fractional;

    /// Amount of active pool tokens.
    fn pool_token_total_supply() -> Fractional;

    /// Amount of base tokens in the pool.
    fn base_asset_reserve() -> Fractional;

    /// Amount of target tokens in the pool.
    fn target_asset_reserve() -> Fractional;
}

} // verus!
