use sp_arithmetic::FixedU128;
use technical_accounts::liquidity::{Fractional, LiquiditySource};

/// A pool with fixed reserves and a fee of three per mille.
struct FixedPool;

impl LiquiditySource for FixedPool {
    fn fee() -> Fractional {
        FixedU128::from_rational(3, 1000)
    }

    fn pool_token_total_supply() -> Fractional {
        FixedU128::from_u32(1_000)
    }

    fn base_asset_reserve() -> Fractional {
        FixedU128::from_u32(400)
    }

    fn target_asset_reserve() -> Fractional {
        FixedU128::from_u32(2_500)
    }
}

fn describe<S: LiquiditySource>() -> [u128; 4] {
    [
        S::fee().into_inner(),
        S::pool_token_total_supply().into_inner(),
        S::base_asset_reserve().into_inner(),
        S::target_asset_reserve().into_inner(),
    ]
}

#[test]
fn a_liquidity_source_reports_fee_and_reserves() {
    let unit: u128 = 1_000_000_000_000_000_000;
    assert_eq!(describe::<FixedPool>(), [3 * unit / 1000, 1_000 * unit, 400 * unit, 2_500 * unit]);
}
