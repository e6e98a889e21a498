use cypher_liquidator::config::cypher_config::{
    ClusterConfig, Clusters, CypherConfig, CypherGroupConfig, CypherMarketConfig,
    CypherOracleConfig, CypherTokenConfig,
};
use cypher_liquidator::config::liquidator_config::LiquidatorConfig;

fn market(name: &str, market_index: usize) -> CypherMarketConfig {
    CypherMarketConfig { name: name.to_string(), market_index, ..Default::default() }
}

fn token(symbol: &str, token_index: usize, mint: &str) -> CypherTokenConfig {
    CypherTokenConfig { symbol: symbol.to_string(), token_index, mint: mint.to_string() }
}

fn group(cluster: &str, name: &str) -> CypherGroupConfig {
    CypherGroupConfig {
        cluster: cluster.to_string(),
        name: name.to_string(),
        tokens: vec![token("cBTC", 0, "a"), token("USDC", 15, "b"), token("cBTC", 15, "c")],
        oracles: vec![CypherOracleConfig {
            symbol: "BTC".to_string(),
            address: "x".to_string(),
        }],
        markets: vec![market("cBTC/USDC", 4), market("cETH/USDC", 5), market("cBTC/USDC", 5)],
        ..Default::default()
    }
}

fn config() -> CypherConfig {
    CypherConfig {
        clusters: Clusters {
            devnet: ClusterConfig { rpc_url: "dev".to_string(), pubsub_url: String::new() },
            mainnet: ClusterConfig { rpc_url: "main".to_string(), pubsub_url: String::new() },
        },
        groups: vec![group("devnet", "one"), group("mainnet", "two"), group("mainnet", "three")],
    }
}

#[test]
fn clusters() {
    let c = config();
    assert_eq!(c.get_config_for_cluster("mainnet").rpc_url, "main");
    for name in ["devnet", "", "testnet", "Mainnet"] {
        assert_eq!(c.get_config_for_cluster(name).rpc_url, "dev");
    }
}

#[test]
fn first_group_of_a_cluster() {
    let c = config();
    assert_eq!(c.get_group("mainnet").unwrap().name, "two");
    assert_eq!(c.get_group("devnet").unwrap().name, "one");
    assert!(c.get_group("").is_none());
}

#[test]
fn first_item_of_a_group() {
    let g = group("devnet", "one");
    assert_eq!(g.get_market("cBTC/USDC").unwrap().market_index, 4);
    assert!(g.get_market("cSOL/USDC").is_none());
    assert_eq!(g.get_market_by_index(5).unwrap().name, "cETH/USDC");
    assert!(g.get_market_by_index(6).is_none());
    assert_eq!(g.get_token_by_index(15).unwrap().symbol, "USDC");
    assert!(g.get_token_by_index(1).is_none());
    assert_eq!(g.get_oracle("BTC").unwrap().address, "x");
    assert!(g.get_oracle("ETH").is_none());
    assert_eq!(g.get_mint_for_symbol("cBTC").unwrap().mint, "a");
    assert!(g.get_mint_for_symbol("cETH").is_none());
    assert_eq!(g.get_market_index("cETH/USDC"), Some(5));
    assert_eq!(g.get_market_index("none"), None);
}

#[test]
fn settings_are_off_by_default() {
    let c = LiquidatorConfig::default();
    assert!(!c.log_simulations && !c.log_liqee_healths && !c.log_liqor_health);
    assert_eq!(c.cluster, "");
}
