pub mod cypher_config;
pub mod liquidator_config;
