//! The settings of a liquidator.
use vstd::prelude::*;

verus! {

#[derive(Debug, Default)]
pub struct LiquidatorConfig {
    /// The path of the wallet.
    pub wallet: String,
    pub group: String,
    pub cluster: String,
    pub log_simulations: bool,
    pub log_liqee_healths: bool,
    pub log_liqor_health: bool,
}

} // verus!
