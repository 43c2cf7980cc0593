use technical_accounts::{DexInfo, TradingPair};

#[test]
fn trading_pairs_compare_by_both_assets() {
    let pair = TradingPair { base_asset_id: 1, target_asset_id: 2 };
    assert_eq!(pair, TradingPair { base_asset_id: 1, target_asset_id: 2 });
    assert_ne!(pair, TradingPair { base_asset_id: 2, target_asset_id: 1 });
    assert_ne!(pair, TradingPair { base_asset_id: 1, target_asset_id: 3 });
    let copy = pair.clone();
    assert_eq!(copy, pair);
}

#[test]
fn dex_info_names_owner_and_base_asset() {
    let info = DexInfo { owner_account_id: 42u64, base_asset_id: 1 };
    assert_eq!(info.owner_account_id, 42);
    assert_eq!(info.base_asset_id, 1);
}
