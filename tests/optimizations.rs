use sip_protocol::accumulator::SimulatedAccumulator;
use sip_protocol::optimizations::{
    calculate_evm_gas, calculate_solana_budget, compare_chain_costs, detect_chain_family,
    estimate_evm_privacy_gas, estimate_solana_privacy_cu, get_chain_characteristics,
    recommend_cheapest_chain, select_optimal_config, ChainFamily, OptimizationProfile,
};

#[test]
fn test_detect_chain_family() {
    assert_eq!(detect_chain_family("solana"), ChainFamily::Solana);
    assert_eq!(detect_chain_family("ethereum"), ChainFamily::Evm);
    assert_eq!(detect_chain_family("arbitrum"), ChainFamily::Evm);
    assert_eq!(detect_chain_family("near"), ChainFamily::Near);
    assert_eq!(detect_chain_family("bitcoin"), ChainFamily::Bitcoin);
}

#[test]
fn test_solana_budget() {
    let budget = calculate_solana_budget(100_000, OptimizationProfile::Standard, None);
    assert_eq!(budget.units, 120_000);
    assert!(budget.microlamports_per_cu >= 100);
}

#[test]
fn test_evm_gas() {
    let config = calculate_evm_gas(100_000, OptimizationProfile::Standard, None);
    assert_eq!(config.gas_limit, 120_000);
    assert!(config.max_fee_per_gas > config.max_priority_fee_per_gas);
}

#[test]
fn test_select_optimal_config() {
    let result = select_optimal_config("solana", OptimizationProfile::Standard, "medium");
    assert_eq!(result.family, ChainFamily::Solana);
    assert!(result.solana.is_some());
    assert!(result.evm.is_none());
}

#[test]
fn test_compare_chain_costs() {
    let costs = compare_chain_costs(&["ethereum", "solana", "arbitrum", "bsc"]);
    assert!(costs[0].1 <= 2);
}

#[test]
fn test_recommend_cheapest() {
    let chains = ["ethereum", "solana", "arbitrum", "bsc"];
    let cheapest = recommend_cheapest_chain(&chains, None);
    assert!(cheapest.is_some());
    let result = cheapest.unwrap();
    assert!(result == "solana" || result == "bsc");
}

#[test]
fn family_detection_by_words() {
    assert_eq!(detect_chain_family("SOLANA-Devnet"), ChainFamily::Solana);
    assert_eq!(detect_chain_family("btc-testnet"), ChainFamily::Bitcoin);
    assert_eq!(detect_chain_family("Osmosis"), ChainFamily::Cosmos);
    assert_eq!(detect_chain_family(""), ChainFamily::Evm);
}

#[test]
fn budgets_exact_values() {
    let b = calculate_solana_budget(100_000, OptimizationProfile::Urgent, Some(2_000));
    assert_eq!((b.units, b.microlamports_per_cu, b.total_priority_fee_lamports), (120_000, 10_000, 1_200));
    let capped = calculate_solana_budget(u32::MAX, OptimizationProfile::Economy, Some(1));
    assert_eq!((capped.units, capped.microlamports_per_cu), (1_400_000, 100));
    let g = calculate_evm_gas(50_000, OptimizationProfile::Fast, Some(10));
    assert_eq!((g.gas_limit, g.max_fee_per_gas, g.max_priority_fee_per_gas), (60_000, 3_000_000_020, 3_000_000_000));
    let e = calculate_evm_gas(5, OptimizationProfile::Economy, None);
    assert_eq!((e.gas_limit, e.max_fee_per_gas, e.max_priority_fee_per_gas), (6, 61_600_000_000, 1_600_000_000));
    assert_eq!(calculate_evm_gas(1, OptimizationProfile::Urgent, Some(u128::MAX)).max_fee_per_gas, u128::MAX);
    assert_eq!(estimate_solana_privacy_cu(2, true, true), 5_000 + 300 + 70_000 + 500 + 2_000);
    assert_eq!(estimate_solana_privacy_cu(u32::MAX, true, false), u32::MAX);
    assert_eq!(estimate_evm_privacy_gas(3, true, false), 21_000 + 195_000 + 46_000);
}

#[test]
fn characteristics_and_advice() {
    let eth = get_chain_characteristics("Ethereum");
    assert_eq!((eth.family, eth.block_time_ms, eth.cost_tier), (ChainFamily::Evm, 12_000, 5));
    assert_eq!(eth.native_token, "ETH");
    let near = select_optimal_config("near", OptimizationProfile::Standard, "simple");
    assert_eq!(near.recommendations, vec!["Chain near not fully optimized yet".to_string()]);
    let eth_cfg = select_optimal_config("ethereum", OptimizationProfile::Standard, "complex");
    assert_eq!(eth_cfg.evm.unwrap().gas_limit, 600_000);
    assert_eq!(eth_cfg.recommendations, vec!["High cost chain (tier 5) - consider L2 alternatives".to_string()]);
    let bsc = select_optimal_config("bsc", OptimizationProfile::Standard, "simple");
    assert_eq!(bsc.recommendations, vec!["BSC: Very low gas costs - use standard profile".to_string()]);
}

#[test]
fn comparison_is_stable_by_tier() {
    let costs = compare_chain_costs(&["ethereum", "bsc", "arbitrum", "solana", "unknown"]);
    let names: Vec<&str> = costs.iter().map(|c| c.0.as_str()).collect();
    assert_eq!(names, vec!["bsc", "solana", "arbitrum", "unknown", "ethereum"]);
    assert_eq!(costs[0].2, "Excellent - very low costs");
    assert_eq!(costs[4].2, "Very expensive - consider alternatives");
    assert!(compare_chain_costs(&[]).is_empty());
}

#[test]
fn cheapest_within_block_time() {
    let chains = ["ethereum", "arbitrum", "polygon"];
    assert_eq!(recommend_cheapest_chain(&chains, Some(1_000)), Some("arbitrum".to_string()));
    assert_eq!(recommend_cheapest_chain(&chains, Some(100)), None);
    assert_eq!(recommend_cheapest_chain(&["bsc", "solana"], None), Some("bsc".to_string()));
}

#[test]
fn accumulator_folds_values() {
    let mut acc = SimulatedAccumulator::new();
    assert!(!acc.finalize());
    acc.accumulate(12_345);
    acc.accumulate(24_690);
    assert_eq!(acc.count, 2);
    assert_eq!(acc.accumulated_value, 12_345 * 31_337 + 24_690);
    assert!(acc.finalize());
}
