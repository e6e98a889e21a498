//! What a liquidator does about a user.
//!
//! The functions decide on snapshots and replies; the caller fetches the accounts, submits what
//! is decided on, and hands back what came of it. A decision is `None` where the configuration
//! and the accounts do not go together: a market or token that the group lacks, or a value that
//! an account does not yield.
use vstd::prelude::*;

use crate::collateral_check::{CheckView, LiquidationCheck};
use crate::config::cypher_config::{
    first_match, law_first_match, law_group_is_first_of_cluster, market_of_index, token_of_index, CypherConfig, CypherGroupConfig,
    CypherTokenConfig,
};
use crate::config::liquidator_config::LiquidatorConfig;
use crate::mints::{
    asset_mint_choice, get_asset_and_liab_mint, liab_mint_choice, mints_found, tokens_in_group,
};
use crate::pubkey::{null_key, Pubkey};
use crate::simulation::{
    collateral_amounts, collateral_defined, market_amounts, market_defined,
    try_simulate_liquidate_collateral, try_simulate_liquidate_market_collateral, UiTokenAmount,
};
use crate::states::{CypherGroup, CypherUser};
use crate::utils::{
    cancel_order, get_cancel_order_ix, get_liquidate_collateral_ixs,
    get_liquidate_market_collateral_ixs, get_settle_funds_ix, settle_funds, token_program_key,
    CancelOrder, DexMarketState, LiquidateCollateral, LiquidateMarketCollateral, SettleFunds,
};

verus! {

/// Why a liquidator gave up on a user, or stopped.
#[derive(Debug, PartialEq, Eq)]
pub enum LiquidatorError {
    ShutdownError,
    CypherGroupNotFound,
    CypherLiqorNotFound,
    ZeroedSimulation,
    /// The transaction was not accepted, with what the cluster said.
    ErrorSubmittingTransaction(String),
}

/// What to do about the collateral of a user.
pub enum CollateralPlan {
    Nothing,
    CancelOrders,
    SettleFunds,
    Liquidate(LiquidateCollateral),
}

/// What to do next about the market collateral of a user.
pub enum MarketPlan {
    Nothing,
    /// Fetch the balance of the vault of the token of a market.
    FetchVault { market_idx: usize, vault: Pubkey },
}

/// The settings and the addresses of a liquidator.
pub struct Liquidator {
    pub liquidator_config: LiquidatorConfig,
    pub cypher_config: CypherConfig,
    pub cypher_group_pubkey: Pubkey,
    pub cypher_liqor_pubkey: Pubkey,
    /// The address of the key pair that signs for the liquidator.
    pub signer: Pubkey,
}

/// Whether the margin ratio of the liquidator, if one is there, is known.
pub open spec fn ratio_known(liqor: Option<&CypherUser>) -> bool {
    liqor is Some ==> liqor->Some_0.margin_c_ratio is Some
}

/// A liquidator may liquidate while at or above the initial margin ratio.
pub open spec fn may_liquidate(group: &CypherGroup, liqor: Option<&CypherUser>) -> bool {
    liqor is Some && group.margin_init_ratio@ <= liqor->Some_0.margin_c_ratio->Some_0@
}

/// Whether the minted amount of a user in a market, its ratio asked for with a flag, is below the
/// maintenance ratio of the market.
pub open spec fn below_mint_maintenance(
    group: &CypherGroup,
    user: &CypherUser,
    token_index: usize,
    flag: bool,
) -> bool {
    let c_asset = user.c_asset(token_index as int);
    &&& token_index != group.quote_token_idx
    &&& c_asset is Some
    &&& c_asset->Some_0.mint_c_ratio(flag) is Some
    &&& c_asset->Some_0.mint_c_ratio(flag)->Some_0@
        < group.markets@[token_index as int].mint_maint_ratio@
}

/// The last of the first tokens in whose market the minted amount is below the maintenance ratio.
pub open spec fn last_below(
    tokens: Seq<CypherTokenConfig>,
    group: &CypherGroup,
    user: &CypherUser,
    n: int,
) -> Option<usize>
    decreases n,
{
    if n <= 0 {
        None
    } else if below_mint_maintenance(group, user, tokens[n - 1].token_index, true) {
        Some(tokens[n - 1].token_index)
    } else {
        last_below(tokens, group, user, n - 1)
    }
}

/// Whether the markets of the configured tokens are those of the group, and whether the user
/// is bankrupt is known where that is of interest.
pub open spec fn markets_in_group(
    tokens: Seq<CypherTokenConfig>,
    group: &CypherGroup,
    user: &CypherUser,
) -> bool {
    forall|i: int|
        0 <= i < tokens.len() ==> {
            let idx = (#[trigger] tokens[i]).token_index;
            &&& idx < group.tokens@.len()
            &&& idx != group.quote_token_idx ==> idx < group.markets@.len()
            &&& below_mint_maintenance(group, user, idx, true) ==> user.is_bankrupt is Some
        }
}

/// Whether five amounts are all zero.
pub open spec fn nothing_moves(amounts: (nat, nat, nat, nat, nat)) -> bool {
    amounts.0 == 0 && amounts.1 == 0 && amounts.2 == 0 && amounts.3 == 0 && amounts.4 == 0
}

/// What is decided about the collateral of a user.
pub enum CollateralDecision {
    Nothing,
    CancelOrders,
    SettleFunds,
    LiqorNotFound,
    Zeroed,
    Liquidate { asset_mint: Seq<u8>, liab_mint: Seq<u8> },
}

/// The decision about the collateral of a user: orders are cancelled first, then funds are
/// settled, and a liquidator that may liquidate goes on where that moves anything.
pub open spec fn collateral_decision(
    tokens: Seq<CypherTokenConfig>,
    group: &CypherGroup,
    user: &CypherUser,
    check: CheckView,
    liqor_at_check: Option<&CypherUser>,
    liqor: Option<&CypherUser>,
) -> CollateralDecision {
    if !check.can_liquidate {
        CollateralDecision::Nothing
    } else if check.open_orders {
        CollateralDecision::CancelOrders
    } else if check.unsettled_funds {
        CollateralDecision::SettleFunds
    } else if !may_liquidate(group, liqor_at_check) {
        CollateralDecision::Nothing
    } else if liqor is None {
        CollateralDecision::LiqorNotFound
    } else if !mints_found(tokens, group, liqor->Some_0, user) {
        CollateralDecision::Nothing
    } else {
        let asset_mint = asset_mint_choice(tokens, group, user);
        let liab_mint = liab_mint_choice(tokens, group, liqor->Some_0, user);
        if nothing_moves(collateral_amounts(group, liqor->Some_0, user, asset_mint, liab_mint)) {
            CollateralDecision::Zeroed
        } else {
            CollateralDecision::Liquidate { asset_mint, liab_mint }
        }
    }
}

/// Whether the configuration and the accounts go together as far as the decision about the
/// collateral of a user needs them.
pub open spec fn collateral_decidable(
    tokens: Seq<CypherTokenConfig>,
    group: &CypherGroup,
    user: &CypherUser,
    check: CheckView,
    liqor_at_check: Option<&CypherUser>,
    liqor: Option<&CypherUser>,
) -> bool {
    if !check.can_liquidate {
        true
    } else if check.open_orders || check.unsettled_funds {
        check.market_index < group.markets@.len() && check.market_index < group.tokens@.len()
    } else {
        &&& ratio_known(liqor_at_check)
        &&& may_liquidate(group, liqor_at_check) && liqor is Some ==> {
            &&& tokens_in_group(tokens, group)
            &&& mints_found(tokens, group, liqor->Some_0, user) ==> collateral_defined(
                group,
                liqor->Some_0,
                user,
                asset_mint_choice(tokens, group, user),
                liab_mint_choice(tokens, group, liqor->Some_0, user),
            )
        }
    }
}

/// What is decided about the market collateral of a user.
pub enum MarketDecision {
    Nothing,
    LiqorNotFound,
    FetchVault { market_idx: usize },
}

/// The decision about the market collateral of a user: a liquidator that may liquidate takes the
/// last market in which the user is below the maintenance ratio.
pub open spec fn market_decision(
    tokens: Seq<CypherTokenConfig>,
    group: &CypherGroup,
    user: &CypherUser,
    liqor_at_check: Option<&CypherUser>,
    liqor: Option<&CypherUser>,
) -> MarketDecision {
    match last_below(tokens, group, user, tokens.len() as int) {
        None => MarketDecision::Nothing,
        Some(market_idx) => if !may_liquidate(group, liqor_at_check) {
            MarketDecision::Nothing
        } else if liqor is None {
            MarketDecision::LiqorNotFound
        } else {
            MarketDecision::FetchVault { market_idx }
        },
    }
}

/// Whether the configuration and the accounts go together as far as the decision about the
/// market collateral of a user needs them.
pub open spec fn market_decidable(
    config: CypherGroupConfig,
    group: &CypherGroup,
    user: &CypherUser,
    liqor_at_check: Option<&CypherUser>,
    liqor: Option<&CypherUser>,
) -> bool {
    &&& markets_in_group(config.tokens@, group, user)
    &&& match last_below(config.tokens@, group, user, config.tokens@.len() as int) {
        None => true,
        Some(market_idx) => {
            &&& ratio_known(liqor_at_check)
            &&& may_liquidate(group, liqor_at_check) && liqor is Some ==> {
                &&& first_match(config.markets@, market_of_index(market_idx)) is Some
                &&& first_match(config.tokens@, token_of_index(market_idx)) is Some
            }
        },
    }
}

/// A token in whose market the minted amount is below the maintenance ratio is a configured
/// one, and is found exactly where there is one.
pub proof fn law_last_below(
    tokens: Seq<CypherTokenConfig>,
    group: &CypherGroup,
    user: &CypherUser,
    n: int,
)
    requires
        0 <= n <= tokens.len(),
    ensures
        last_below(tokens, group, user, n) is None <==> forall|i: int|
            0 <= i < n ==> !below_mint_maintenance(group, user, (#[trigger] tokens[i]).token_index, true),
        last_below(tokens, group, user, n) is Some ==> exists|i: int|
            0 <= i < n && (#[trigger] tokens[i]).token_index == last_below(
                tokens,
                group,
                user,
                n,
            )->Some_0 && below_mint_maintenance(group, user, tokens[i].token_index, true) && forall|j: int|
                i < j < n ==> !below_mint_maintenance(
                    group,
                    user,
                    (#[trigger] tokens[j]).token_index,
                    true,
                ),
    decreases n,
{
    if n > 0 {
        if below_mint_maintenance(group, user, tokens[n - 1].token_index, true) {
            assert(tokens[n - 1].token_index == last_below(tokens, group, user, n)->Some_0);
        } else {
            law_last_below(tokens, group, user, n - 1);
        }
    }
}

/// The market that is found is that of the last configured token, other than the quote token, in
/// whose market the ratio of the user, asked for with the flag set, is below the maintenance ratio
/// of the same market; a negative number stands for none.
pub proof fn law_market_is_last_below_its_own_ratio(
    tokens: Seq<CypherTokenConfig>,
    group: &CypherGroup,
    user: &CypherUser,
    c: int,
)
    requires
        ({
            let below = |i: int|
                {
                    let idx = tokens[i].token_index as int;
                    &&& tokens[i].token_index != group.quote_token_idx
                    &&& idx < user.c_assets@.len()
                    &&& user.c_assets@[idx] is Some
                    &&& user.c_assets@[idx]->Some_0.mint_c_ratio_flagged is Some
                    &&& user.c_assets@[idx]->Some_0.mint_c_ratio_flagged->Some_0@
                        < group.markets@[idx].mint_maint_ratio@
                };
            &&& c < tokens.len()
            &&& 0 <= c ==> below(c)
            &&& forall|i: int| #![trigger tokens[i]] 0 <= i < tokens.len() && c < i ==> !below(i)
        }),
    ensures
        last_below(tokens, group, user, tokens.len() as int) == if 0 <= c {
            Some(tokens[c].token_index)
        } else {
            None
        },
{
    lemma_last_below_is(tokens, group, user, c, tokens.len() as int);
}

proof fn lemma_last_below_is(
    tokens: Seq<CypherTokenConfig>,
    group: &CypherGroup,
    user: &CypherUser,
    c: int,
    n: int,
)
    requires
        c < n <= tokens.len(),
        0 <= n,
        0 <= c ==> below_mint_maintenance(group, user, tokens[c].token_index, true),
        forall|i: int|
            0 <= i < n && c < i ==> !below_mint_maintenance(
                group,
                user,
                (#[trigger] tokens[i]).token_index,
                true,
            ),
    ensures
        last_below(tokens, group, user, n) == if 0 <= c {
            Some(tokens[c].token_index)
        } else {
            None
        },
    decreases n,
{
    if n > 0 && c < n - 1 {
        assert(!below_mint_maintenance(group, user, tokens[n - 1].token_index, true));
        lemma_last_below_is(tokens, group, user, c, n - 1);
    }
}

/// A check of market collateral has an outcome exactly where every configured token is one of the
/// group, every one but the quote token has a market in it, and whether the user is bankrupt is
/// known if the user is below the maintenance ratio in one of them.
pub proof fn law_market_check_has_outcome(
    tokens: Seq<CypherTokenConfig>,
    group: &CypherGroup,
    user: &CypherUser,
)
    ensures
        ({
            let below = |i: int|
                {
                    let idx = tokens[i].token_index as int;
                    &&& tokens[i].token_index != group.quote_token_idx
                    &&& idx < user.c_assets@.len()
                    &&& user.c_assets@[idx] is Some
                    &&& user.c_assets@[idx]->Some_0.mint_c_ratio_flagged is Some
                    &&& user.c_assets@[idx]->Some_0.mint_c_ratio_flagged->Some_0@
                        < group.markets@[idx].mint_maint_ratio@
                };
            markets_in_group(tokens, group, user) <==> forall|i: int|
                #![trigger tokens[i]]
                0 <= i < tokens.len() ==> {
                    &&& tokens[i].token_index < group.tokens@.len()
                    &&& tokens[i].token_index != group.quote_token_idx ==> tokens[i].token_index
                        < group.markets@.len()
                    &&& below(i) ==> user.is_bankrupt is Some
                }
        }),
{
}

/// A liquidator may liquidate exactly where its account is there and its margin ratio is not
/// below the initial ratio of the group.
pub proof fn law_liquidator_needs_initial_ratio(group: &CypherGroup, liqor: Option<&CypherUser>)
    ensures
        may_liquidate(group, liqor) <==> liqor is Some && liqor->Some_0.margin_c_ratio->Some_0@
            >= group.margin_init_ratio@,
        ratio_known(liqor) <==> liqor is None || liqor->Some_0.margin_c_ratio is Some,
{
}

/// What is decided about the collateral of a user, over the accounts and the check.
pub proof fn law_collateral_is_decided(
    tokens: Seq<CypherTokenConfig>,
    group: &CypherGroup,
    user: &CypherUser,
    check: CheckView,
    liqor_at_check: Option<&CypherUser>,
    liqor: Option<&CypherUser>,
)
    ensures
        ({
            let decision = collateral_decision(tokens, group, user, check, liqor_at_check, liqor);
            let fit = liqor_at_check is Some && liqor_at_check->Some_0.margin_c_ratio->Some_0@
                >= group.margin_init_ratio@;
            let clear = check.can_liquidate && !check.open_orders && !check.unsettled_funds;
            let found = mints_found(tokens, group, liqor->Some_0, user);
            let asset_mint = asset_mint_choice(tokens, group, user);
            let liab_mint = liab_mint_choice(tokens, group, liqor->Some_0, user);
            let amounts = collateral_amounts(group, liqor->Some_0, user, asset_mint, liab_mint);
            let zero = amounts.0 == 0 && amounts.1 == 0 && amounts.2 == 0 && amounts.3 == 0
                && amounts.4 == 0;
            &&& decision is CancelOrders <==> check.can_liquidate && check.open_orders
            &&& decision is SettleFunds <==> check.can_liquidate && !check.open_orders
                && check.unsettled_funds
            &&& decision is LiqorNotFound <==> clear && fit && liqor is None
            &&& decision is Zeroed <==> clear && fit && liqor is Some && found && zero
            &&& decision is Liquidate <==> clear && fit && liqor is Some && found && !zero
            &&& decision is Liquidate ==> decision == (CollateralDecision::Liquidate {
                asset_mint,
                liab_mint,
            })
        }),
{
}

/// The decision about the collateral of a user can be made exactly where what it needs is there:
/// the market and the token of orders or funds, the margin ratio of the liquidator, the
/// configured tokens, and the amounts of the liquidation.
pub proof fn law_collateral_can_be_decided(
    tokens: Seq<CypherTokenConfig>,
    group: &CypherGroup,
    user: &CypherUser,
    check: CheckView,
    liqor_at_check: Option<&CypherUser>,
    liqor: Option<&CypherUser>,
)
    ensures
        ({
            let known = liqor_at_check is Some ==> liqor_at_check->Some_0.margin_c_ratio is Some;
            let fit = liqor_at_check is Some && liqor_at_check->Some_0.margin_c_ratio->Some_0@
                >= group.margin_init_ratio@;
            let in_group = forall|i: int|
                0 <= i < tokens.len() ==> (#[trigger] tokens[i]).token_index < group.tokens@.len();
            let asset_mint = asset_mint_choice(tokens, group, user);
            let liab_mint = liab_mint_choice(tokens, group, liqor->Some_0, user);
            collateral_decidable(tokens, group, user, check, liqor_at_check, liqor) <==> {
                &&& check.can_liquidate && (check.open_orders || check.unsettled_funds)
                    ==> check.market_index < group.markets@.len() && check.market_index
                    < group.tokens@.len()
                &&& check.can_liquidate && !check.open_orders && !check.unsettled_funds ==> {
                    &&& known
                    &&& fit && liqor is Some ==> in_group
                    &&& fit && liqor is Some && mints_found(tokens, group, liqor->Some_0, user)
                        ==> collateral_defined(group, liqor->Some_0, user, asset_mint, liab_mint)
                }
            }
        }),
{
}

/// What is decided about the market collateral of a user, and when it can be, over the accounts
/// and the configuration.
pub proof fn law_market_is_decided(
    config: CypherGroupConfig,
    group: &CypherGroup,
    user: &CypherUser,
    liqor_at_check: Option<&CypherUser>,
    liqor: Option<&CypherUser>,
)
    ensures
        ({
            let tokens = config.tokens@;
            let market = last_below(tokens, group, user, tokens.len() as int);
            let decision = market_decision(tokens, group, user, liqor_at_check, liqor);
            let known = liqor_at_check is Some ==> liqor_at_check->Some_0.margin_c_ratio is Some;
            let fit = liqor_at_check is Some && liqor_at_check->Some_0.margin_c_ratio->Some_0@
                >= group.margin_init_ratio@;
            &&& decision is LiqorNotFound <==> market is Some && fit && liqor is None
            &&& decision is FetchVault <==> market is Some && fit && liqor is Some
            &&& decision is FetchVault ==> decision == (MarketDecision::FetchVault {
                market_idx: market->Some_0,
            })
            &&& market_decidable(config, group, user, liqor_at_check, liqor) <==> {
                &&& markets_in_group(tokens, group, user)
                &&& market is Some ==> known
                &&& market is Some && fit && liqor is Some ==> {
                    &&& exists|i: int|
                        0 <= i < config.markets@.len() && (#[trigger] config.markets@[i]).market_index
                            == market->Some_0
                    &&& exists|i: int|
                        0 <= i < tokens.len() && (#[trigger] tokens[i]).token_index
                            == market->Some_0
                }
            }
        }),
{
    let tokens = config.tokens@;
    let market = last_below(tokens, group, user, tokens.len() as int)->Some_0;
    law_first_match(config.markets@, market_of_index(market));
    law_first_match(tokens, token_of_index(market));
}

/// A plan carries out the decision: it names the liquidator's account and signer, the account of
/// the user, and both mints.
pub proof fn law_plan_carries_out_decision(
    liquidator: &Liquidator,
    plan: Result<CollateralPlan, LiquidatorError>,
    group: &CypherGroup,
    liqee: Pubkey,
    decision: CollateralDecision,
)
    ensures
        liquidator.plan_is(plan, group, liqee, decision) <==> match plan {
            Err(e) => {
                ||| e == LiquidatorError::CypherLiqorNotFound && decision is LiqorNotFound
                ||| e == LiquidatorError::ZeroedSimulation && decision is Zeroed
            },
            Ok(CollateralPlan::Nothing) => decision is Nothing,
            Ok(CollateralPlan::CancelOrders) => decision is CancelOrders,
            Ok(CollateralPlan::SettleFunds) => decision is SettleFunds,
            Ok(CollateralPlan::Liquidate(ix)) => {
                &&& ix.cypher_group == group.self_address
                &&& ix.cypher_user == liquidator.cypher_liqor_pubkey
                &&& ix.user_signer == liquidator.signer
                &&& ix.liqee_cypher_user == liqee
                &&& decision == (CollateralDecision::Liquidate {
                    asset_mint: ix.asset_mint@,
                    liab_mint: ix.liab_mint@,
                })
            },
        },
{
}

/// A plan for market collateral carries out the decision: the vault is that of the token of the
/// market itself.
pub proof fn law_market_plan_carries_out_decision(
    liquidator: &Liquidator,
    plan: Result<MarketPlan, LiquidatorError>,
    group: &CypherGroup,
    decision: MarketDecision,
)
    ensures
        liquidator.market_plan_is(plan, group, decision) <==> match plan {
            Err(e) => e == LiquidatorError::CypherLiqorNotFound && decision is LiqorNotFound,
            Ok(MarketPlan::Nothing) => decision is Nothing,
            Ok(MarketPlan::FetchVault { market_idx, vault }) => vault
                == group.tokens@[market_idx as int].vault && decision
                == (MarketDecision::FetchVault { market_idx }),
        },
{
}

/// A liquidation of market collateral names the minting rounds of the market itself, the mint and
/// the vault of its token, and the token program.
pub proof fn law_market_liquidation_names_its_market(
    liquidator: &Liquidator,
    ix: LiquidateMarketCollateral,
    group: &CypherGroup,
    liqee: Pubkey,
    market_idx: int,
)
    ensures
        liquidator.market_liquidation_is(ix, group, liqee, market_idx) <==> {
            &&& ix.cypher_group == group.self_address
            &&& ix.vault_signer == group.vault_signer
            &&& ix.minting_rounds == group.markets@[market_idx].minting_rounds
            &&& ix.cypher_user == liquidator.cypher_liqor_pubkey
            &&& ix.user_signer == liquidator.signer
            &&& ix.liqee_cypher_user == liqee
            &&& ix.c_asset_mint == group.tokens@[market_idx].mint
            &&& ix.cypher_c_asset_vault == group.tokens@[market_idx].vault
            &&& ix.token_program@ == token_program_key()
        },
{
}

/// A liquidator goes by the first configured group whose cluster is that of its own settings, and
/// by the tokens of that group; a negative number stands for none.
pub proof fn law_liquidator_goes_by_its_cluster(liquidator: &Liquidator, g: int)
    requires
        g < liquidator.cypher_config.groups@.len(),
        0 <= g ==> liquidator.cypher_config.groups@[g].cluster@
            == liquidator.liquidator_config.cluster@,
        forall|i: int|
            0 <= i < liquidator.cypher_config.groups@.len() && (i < g || g < 0)
                ==> (#[trigger] liquidator.cypher_config.groups@[i]).cluster@
                != liquidator.liquidator_config.cluster@,
    ensures
        0 <= g ==> liquidator.group_config() == Some(liquidator.cypher_config.groups@[g])
            && liquidator.tokens() == liquidator.cypher_config.groups@[g].tokens@,
        g < 0 ==> liquidator.group_config() is None,
{
    law_group_is_first_of_cluster(
        &liquidator.cypher_config,
        liquidator.liquidator_config.cluster@,
        g,
    );
}

/// Nothing moves exactly where each of five amounts is zero.
pub proof fn law_nothing_moves_means_all_zero(amounts: (nat, nat, nat, nat, nat))
    ensures
        nothing_moves(amounts) <==> amounts == (0nat, 0nat, 0nat, 0nat, 0nat),
{
}

/// A liquidator below the initial margin ratio, or without an account, liquidates nobody.
pub proof fn law_unfit_liquidator_liquidates_nobody(
    tokens: Seq<CypherTokenConfig>,
    group: &CypherGroup,
    user: &CypherUser,
    check: CheckView,
    liqor_at_check: Option<&CypherUser>,
    liqor: Option<&CypherUser>,
)
    requires
        !may_liquidate(group, liqor_at_check),
    ensures
        !(collateral_decision(tokens, group, user, check, liqor_at_check, liqor) is Liquidate),
        market_decision(tokens, group, user, liqor_at_check, liqor) is Nothing,
{
}

/// A user is liquidated only where no orders are to be cancelled and no funds to be settled
/// first, both mints are accounts, and the liquidation moves something.
pub proof fn law_liquidation_is_last_and_moves_something(
    tokens: Seq<CypherTokenConfig>,
    group: &CypherGroup,
    user: &CypherUser,
    check: CheckView,
    liqor_at_check: Option<&CypherUser>,
    liqor: Option<&CypherUser>,
)
    requires
        collateral_decision(tokens, group, user, check, liqor_at_check, liqor) is Liquidate,
    ensures
        check.can_liquidate && !check.open_orders && !check.unsettled_funds,
        match collateral_decision(tokens, group, user, check, liqor_at_check, liqor) {
            CollateralDecision::Liquidate { asset_mint, liab_mint } => {
                &&& asset_mint != null_key()
                &&& liab_mint != null_key()
                &&& !nothing_moves(
                    collateral_amounts(group, liqor->Some_0, user, asset_mint, liab_mint),
                )
            },
            _ => false,
        },
{
}

/// What is attempted for a user.
#[derive(Clone, Copy, Debug, PartialEq, Eq, Structural)]
pub enum Attempt {
    /// To liquidate the collateral.
    Collateral,
    /// To liquidate the market collateral.
    MarketCollateral,
}

/// The next step in processing a user.
#[derive(Debug, PartialEq, Eq)]
pub enum ProcessStep {
    Attempt(Attempt),
    /// The user is processed, with what came of it.
    Done(Result<(), LiquidatorError>),
}

/// The first step in processing a user: without a group nothing is attempted.
pub open spec fn first_attempt(cypher_group: Option<&CypherGroup>) -> ProcessStep {
    if cypher_group is Some {
        ProcessStep::Attempt(Attempt::Collateral)
    } else {
        ProcessStep::Done(Err(LiquidatorError::CypherGroupNotFound))
    }
}

/// The step after an attempt, whatever came of it.
pub open spec fn after_attempt(attempt: Attempt, outcome: Result<(), LiquidatorError>) -> ProcessStep {
    match attempt {
        Attempt::Collateral => ProcessStep::Attempt(Attempt::MarketCollateral),
        Attempt::MarketCollateral => ProcessStep::Done(Ok(())),
    }
}

/// How many attempts a step leads to at most.
pub open spec fn attempts_left(step: ProcessStep) -> nat {
    match step {
        ProcessStep::Attempt(Attempt::Collateral) => 2,
        ProcessStep::Attempt(Attempt::MarketCollateral) => 1,
        ProcessStep::Done(_) => 0,
    }
}

/// The attempts from a step on, in order, and what comes of processing the user in the end,
/// where each attempt has a given outcome.
pub open spec fn processed(
    step: ProcessStep,
    outcomes: spec_fn(Attempt) -> Result<(), LiquidatorError>,
) -> (Seq<Attempt>, Result<(), LiquidatorError>)
    decreases attempts_left(step),
{
    match step {
        ProcessStep::Attempt(attempt) => {
            let rest = processed(after_attempt(attempt, outcomes(attempt)), outcomes);
            (seq![attempt] + rest.0, rest.1)
        },
        ProcessStep::Done(outcome) => (seq![], outcome),
    }
}

/// Whatever comes of the attempts, both are made, the collateral first, and processing a user
/// succeeds; it fails exactly where there is no group, and then nothing is attempted.
pub proof fn law_both_are_attempted(
    cypher_group: Option<&CypherGroup>,
    outcomes: spec_fn(Attempt) -> Result<(), LiquidatorError>,
)
    ensures
        processed(first_attempt(cypher_group), outcomes) == if cypher_group is Some {
            (
                seq![Attempt::Collateral, Attempt::MarketCollateral],
                Ok::<(), LiquidatorError>(()),
            )
        } else {
            (seq![], Err::<(), LiquidatorError>(LiquidatorError::CypherGroupNotFound))
        },
{
    reveal_with_fuel(processed, 3);
    assert(processed(first_attempt(cypher_group), outcomes).0 =~= if cypher_group is Some {
        seq![Attempt::Collateral, Attempt::MarketCollateral]
    } else {
        seq![]
    });
}

/// The first step in processing a user with the group, where it is known.
pub fn process(cypher_group: Option<&CypherGroup>) -> (r: ProcessStep)
    ensures
        r == first_attempt(cypher_group),
{
    match cypher_group {
        Some(_) => ProcessStep::Attempt(Attempt::Collateral),
        None => ProcessStep::Done(Err(LiquidatorError::CypherGroupNotFound)),
    }
}

/// The step in processing a user after an attempt with its outcome: an attempt that failed is
/// left for the next time.
pub fn process_after(attempt: Attempt, outcome: Result<(), LiquidatorError>) -> (r: ProcessStep)
    ensures
        r == after_attempt(attempt, outcome),
{
    match attempt {
        Attempt::Collateral => ProcessStep::Attempt(Attempt::MarketCollateral),
        Attempt::MarketCollateral => ProcessStep::Done(Ok(())),
    }
}

/// Whether a liquidator may liquidate.
pub fn check_can_liquidate(cypher_group: &CypherGroup, cypher_liqor: Option<&CypherUser>) -> (r:
    Option<bool>)
    ensures
        r is Some <==> ratio_known(cypher_liqor),
        r is Some ==> r->Some_0 == may_liquidate(cypher_group, cypher_liqor),
{
    match cypher_liqor {
        Some(liqor) => Some(cypher_group.margin_init_ratio.at_most(liqor.margin_c_ratio?)),
        None => Some(false),
    }
}

/// What becomes of a user after what was planned was submitted: a liquidation that was not
/// accepted is left for the next time.
pub fn conclude_collateral(plan: &CollateralPlan, submitted: Result<(), String>) -> (r: Result<
    (),
    LiquidatorError,
>)
    ensures
        (plan is CancelOrders || plan is SettleFunds) && submitted is Err ==> r == Err::<
            (),
            LiquidatorError,
        >(LiquidatorError::ErrorSubmittingTransaction(submitted->Err_0)),
        !((plan is CancelOrders || plan is SettleFunds) && submitted is Err) ==> r is Ok,
{
    match submitted {
        Ok(_) => Ok(()),
        Err(reason) => match plan {
            CollateralPlan::CancelOrders | CollateralPlan::SettleFunds => Err(
                LiquidatorError::ErrorSubmittingTransaction(reason),
            ),
            _ => Ok(()),
        },
    }
}

/// What becomes of a user after a liquidation of market collateral was submitted: one that was
/// not accepted is left for the next time.
pub fn conclude_market_collateral(submitted: Result<(), String>) -> (r: Result<(), LiquidatorError>)
    ensures
        r is Ok,
{
    match submitted {
        Ok(_) => Ok(()),
        Err(_) => Ok(()),
    }
}

fn all_zero(amounts: &(u64, u64, u64, u64, u64)) -> (r: bool)
    ensures
        r == (amounts.0 == 0 && amounts.1 == 0 && amounts.2 == 0 && amounts.3 == 0 && amounts.4
            == 0),
{
    amounts.0 == 0 && amounts.1 == 0 && amounts.2 == 0 && amounts.3 == 0 && amounts.4 == 0
}

impl Liquidator {
    pub fn new(
        liquidator_config: LiquidatorConfig,
        cypher_config: CypherConfig,
        cypher_group_pubkey: Pubkey,
        cypher_liqor_pubkey: Pubkey,
        signer: Pubkey,
    ) -> (r: Self)
        ensures
            r.liquidator_config == liquidator_config,
            r.cypher_config == cypher_config,
            r.cypher_group_pubkey == cypher_group_pubkey,
            r.cypher_liqor_pubkey == cypher_liqor_pubkey,
            r.signer == signer,
    {
        Liquidator {
            liquidator_config,
            cypher_config,
            cypher_group_pubkey,
            cypher_liqor_pubkey,
            signer,
        }
    }

    /// The configuration of the group of the liquidator's cluster.
    pub open spec fn group_config(&self) -> Option<CypherGroupConfig> {
        self.cypher_config.group(self.liquidator_config.cluster@)
    }

    /// The tokens of the group of the liquidator's cluster.
    pub open spec fn tokens(&self) -> Seq<CypherTokenConfig> {
        self.group_config()->Some_0.tokens@
    }

    pub(crate) fn get_group_config(&self) -> (r: Option<&CypherGroupConfig>)
        ensures
            r is Some <==> self.group_config() is Some,
            r is Some ==> *r->Some_0 == self.group_config()->Some_0,
    {
        self.cypher_config.get_group(self.liquidator_config.cluster.as_str())
    }

    /// The liquidation that is decided on.
    pub open spec fn liquidation_is(
        &self,
        ix: LiquidateCollateral,
        group: &CypherGroup,
        liqee: Pubkey,
        asset_mint: Seq<u8>,
        liab_mint: Seq<u8>,
    ) -> bool {
        &&& ix.cypher_group == group.self_address
        &&& ix.cypher_user == self.cypher_liqor_pubkey
        &&& ix.user_signer == self.signer
        &&& ix.liqee_cypher_user == liqee
        &&& ix.asset_mint@ == asset_mint
        &&& ix.liab_mint@ == liab_mint
    }

    /// Whether a plan is the one that a decision asks for.
    pub open spec fn plan_is(
        &self,
        plan: Result<CollateralPlan, LiquidatorError>,
        group: &CypherGroup,
        liqee: Pubkey,
        decision: CollateralDecision,
    ) -> bool {
        match decision {
            CollateralDecision::Nothing => plan is Ok && plan->Ok_0 is Nothing,
            CollateralDecision::CancelOrders => plan is Ok && plan->Ok_0 is CancelOrders,
            CollateralDecision::SettleFunds => plan is Ok && plan->Ok_0 is SettleFunds,
            CollateralDecision::LiqorNotFound => plan is Err && plan->Err_0
                == LiquidatorError::CypherLiqorNotFound,
            CollateralDecision::Zeroed => plan is Err && plan->Err_0
                == LiquidatorError::ZeroedSimulation,
            CollateralDecision::Liquidate { asset_mint, liab_mint } => plan is Ok
                && plan->Ok_0 is Liquidate && self.liquidation_is(
                plan->Ok_0->Liquidate_0,
                group,
                liqee,
                asset_mint,
                liab_mint,
            ),
        }
    }

    /// What to do about the collateral of a user, after a check of it. The liquidator's account
    /// is looked at twice: for whether it may liquidate, and for what it liquidates with.
    pub fn process_collateral(
        &self,
        cypher_group: &CypherGroup,
        cypher_user: &CypherUser,
        cypher_user_pubkey: &Pubkey,
        check: &LiquidationCheck,
        liqor_at_check: Option<&CypherUser>,
        cypher_liqor: Option<&CypherUser>,
    ) -> (r: Option<Result<CollateralPlan, LiquidatorError>>)
        ensures
            r is Some <==> self.group_config() is Some && collateral_decidable(
                self.tokens(),
                cypher_group,
                cypher_user,
                check@,
                liqor_at_check,
                cypher_liqor,
            ),
            r is Some ==> self.plan_is(
                r->Some_0,
                cypher_group,
                *cypher_user_pubkey,
                collateral_decision(
                    self.tokens(),
                    cypher_group,
                    cypher_user,
                    check@,
                    liqor_at_check,
                    cypher_liqor,
                ),
            ),
    {
        let config = self.get_group_config()?;
        if !check.can_liquidate {
            return Some(Ok(CollateralPlan::Nothing));
        }
        if check.open_orders || check.unsettled_funds {
            if check.market_index >= cypher_group.markets.len() || check.market_index
                >= cypher_group.tokens.len() {
                return None;
            }
            if check.open_orders {
                return Some(Ok(CollateralPlan::CancelOrders));
            }
            return Some(Ok(CollateralPlan::SettleFunds));
        }
        if !check_can_liquidate(cypher_group, liqor_at_check)? {
            return Some(Ok(CollateralPlan::Nothing));
        }
        let liqor = match cypher_liqor {
            Some(liqor) => liqor,
            None => {
                return Some(Err(LiquidatorError::CypherLiqorNotFound));
            },
        };
        if !all_in_group(&config.tokens, cypher_group) {
            return None;
        }
        let (liqor_can_liq, asset_mint, liab_mint) = get_asset_and_liab_mint(
            &config.tokens,
            cypher_group,
            liqor,
            cypher_user,
        );
        if !liqor_can_liq {
            return Some(Ok(CollateralPlan::Nothing));
        }
        let amounts = try_simulate_liquidate_collateral(
            cypher_group,
            liqor,
            cypher_user,
            &asset_mint,
            &liab_mint,
        )?;
        if all_zero(&amounts) {
            return Some(Err(LiquidatorError::ZeroedSimulation));
        }
        Some(
            Ok(
                CollateralPlan::Liquidate(
                    get_liquidate_collateral_ixs(
                        cypher_group,
                        &asset_mint,
                        &liab_mint,
                        &self.cypher_liqor_pubkey,
                        cypher_user_pubkey,
                        &self.signer,
                    ),
                ),
            ),
        )
    }

    /// Whether the market collateral of a user is to be liquidated, and in which market.
    pub fn check_market_collateral(&self, cypher_group: &CypherGroup, cypher_user: &CypherUser) -> (r:
        Option<(bool, usize)>)
        ensures
            r is Some <==> self.group_config() is Some && markets_in_group(
                self.tokens(),
                cypher_group,
                cypher_user,
            ),
            r is Some ==> r->Some_0.0 == (last_below(
                self.tokens(),
                cypher_group,
                cypher_user,
                self.tokens().len() as int,
            ) is Some),
            r is Some ==> r->Some_0.1 == match last_below(
                self.tokens(),
                cypher_group,
                cypher_user,
                self.tokens().len() as int,
            ) {
                Some(idx) => idx,
                None => 0,
            },
    {
        let config = self.get_group_config()?;
        let tokens = &config.tokens;
        let mut liquidatable: bool = false;
        let mut token_index: usize = 0;
        let mut n: usize = 0;
        while n < tokens.len()
            invariant
                n <= tokens@.len(),
                liquidatable == (last_below(tokens@, cypher_group, cypher_user, n as int) is Some),
                token_index == match last_below(tokens@, cypher_group, cypher_user, n as int) {
                    Some(idx) => idx,
                    None => 0,
                },
                self.group_config() is Some,
                tokens@ == self.tokens(),
                forall|i: int|
                    0 <= i < n ==> {
                        let idx = (#[trigger] tokens@[i]).token_index;
                        &&& idx < cypher_group.tokens@.len()
                        &&& idx != cypher_group.quote_token_idx ==> idx
                            < cypher_group.markets@.len()
                        &&& below_mint_maintenance(cypher_group, cypher_user, idx, true)
                            ==> cypher_user.is_bankrupt is Some
                    },
            decreases tokens@.len() - n,
        {
            let idx: usize = tokens[n].token_index;
            assert(tokens@[n as int].token_index == idx);
            if idx >= cypher_group.tokens.len() {
                return None;
            }
            if idx != cypher_group.quote_token_idx {
                if idx >= cypher_group.markets.len() {
                    return None;
                }
                let mint_maint_ratio = cypher_group.get_cypher_market(idx).mint_maint_ratio;
                if let Some(user_c_asset) = cypher_user.get_c_asset(idx) {
                    if let Some(asset_mint_c_ratio) = user_c_asset.get_mint_c_ratio(true) {
                        if asset_mint_c_ratio.below(mint_maint_ratio) {
                            if cypher_user.is_bankrupt.is_none() {
                                return None;
                            }
                            liquidatable = true;
                            token_index = idx;
                        }
                    }
                }
            }
            n = n + 1;
        }
        Some((liquidatable, token_index))
    }

    /// Whether a plan is the one that a decision about market collateral asks for.
    pub open spec fn market_plan_is(
        &self,
        plan: Result<MarketPlan, LiquidatorError>,
        group: &CypherGroup,
        decision: MarketDecision,
    ) -> bool {
        match decision {
            MarketDecision::Nothing => plan is Ok && plan->Ok_0 is Nothing,
            MarketDecision::LiqorNotFound => plan is Err && plan->Err_0
                == LiquidatorError::CypherLiqorNotFound,
            MarketDecision::FetchVault { market_idx } => plan is Ok && plan->Ok_0
                == (MarketPlan::FetchVault {
                market_idx,
                vault: group.tokens@[market_idx as int].vault,
            }),
        }
    }

    /// What to do next about the market collateral of a user. The liquidator's account is
    /// looked at twice, as for the collateral.
    pub fn process_market_collateral(
        &self,
        cypher_group: &CypherGroup,
        cypher_user: &CypherUser,
        liqor_at_check: Option<&CypherUser>,
        cypher_liqor: Option<&CypherUser>,
    ) -> (r: Option<Result<MarketPlan, LiquidatorError>>)
        ensures
            r is Some <==> self.group_config() is Some && market_decidable(
                self.group_config()->Some_0,
                cypher_group,
                cypher_user,
                liqor_at_check,
                cypher_liqor,
            ),
            r is Some ==> self.market_plan_is(
                r->Some_0,
                cypher_group,
                market_decision(
                    self.tokens(),
                    cypher_group,
                    cypher_user,
                    liqor_at_check,
                    cypher_liqor,
                ),
            ),
    {
        let config = self.get_group_config()?;
        let (can_liq, market_idx) = self.check_market_collateral(cypher_group, cypher_user)?;
        if !can_liq {
            return Some(Ok(MarketPlan::Nothing));
        }
        if !check_can_liquidate(cypher_group, liqor_at_check)? {
            return Some(Ok(MarketPlan::Nothing));
        }
        if cypher_liqor.is_none() {
            return Some(Err(LiquidatorError::CypherLiqorNotFound));
        }
        if config.get_market_by_index(market_idx).is_none() || config.get_token_by_index(
            market_idx,
        ).is_none() {
            return None;
        }
        proof {
            law_last_below(
                self.tokens(),
                cypher_group,
                cypher_user,
                self.tokens().len() as int,
            );
        }
        let vault = cypher_group.get_cypher_token(market_idx).vault;
        Some(Ok(MarketPlan::FetchVault { market_idx, vault }))
    }

    /// The liquidation of market collateral that is decided on.
    pub open spec fn market_liquidation_is(
        &self,
        ix: LiquidateMarketCollateral,
        group: &CypherGroup,
        liqee: Pubkey,
        market_idx: int,
    ) -> bool {
        &&& ix.cypher_group == group.self_address
        &&& ix.vault_signer == group.vault_signer
        &&& ix.minting_rounds == group.markets@[market_idx].minting_rounds
        &&& ix.cypher_user == self.cypher_liqor_pubkey
        &&& ix.user_signer == self.signer
        &&& ix.liqee_cypher_user == liqee
        &&& ix.c_asset_mint == group.tokens@[market_idx].mint
        &&& ix.cypher_c_asset_vault == group.tokens@[market_idx].vault
        &&& ix.token_program@ == token_program_key()
    }

    /// The liquidation of the market collateral of a user with a given balance of the vault,
    /// where it moves anything.
    pub fn liquidate_market_collateral(
        &self,
        cypher_group: &CypherGroup,
        cypher_liqor: &CypherUser,
        cypher_user: &CypherUser,
        cypher_user_pubkey: &Pubkey,
        vault: &UiTokenAmount,
        market_idx: usize,
    ) -> (r: Option<Result<LiquidateMarketCollateral, LiquidatorError>>)
        ensures
            r is Some <==> market_defined(
                cypher_group,
                cypher_liqor,
                cypher_user,
                vault,
                market_idx as int,
            ),
            r is Some ==> {
                let amounts = market_amounts(
                    cypher_group,
                    cypher_liqor,
                    cypher_user,
                    vault,
                    market_idx as int,
                );
                match r->Some_0 {
                    Ok(ix) => !nothing_moves(amounts) && self.market_liquidation_is(
                        ix,
                        cypher_group,
                        *cypher_user_pubkey,
                        market_idx as int,
                    ),
                    Err(e) => nothing_moves(amounts) && e == LiquidatorError::ZeroedSimulation,
                }
            },
    {
        let amounts = try_simulate_liquidate_market_collateral(
            cypher_group,
            cypher_liqor,
            cypher_user,
            vault,
            market_idx,
        )?;
        if all_zero(&amounts) {
            return Some(Err(LiquidatorError::ZeroedSimulation));
        }
        Some(
            Ok(
                get_liquidate_market_collateral_ixs(
                    cypher_group,
                    cypher_group.get_cypher_market(market_idx),
                    cypher_group.get_cypher_token(market_idx),
                    &self.cypher_liqor_pubkey,
                    cypher_user_pubkey,
                    &self.signer,
                ),
            ),
        )
    }
}

/// Whether every configured token is one of the group.
pub(crate) fn all_in_group(tokens: &Vec<CypherTokenConfig>, group: &CypherGroup) -> (r: bool)
    ensures
        r == tokens_in_group(tokens@, group),
{
    let mut i: usize = 0;
    while i < tokens.len()
        invariant
            i <= tokens@.len(),
            forall|j: int|
                0 <= j < i ==> (#[trigger] tokens@[j]).token_index < group.tokens@.len(),
        decreases tokens@.len() - i,
    {
        if tokens[i].token_index >= group.tokens.len() {
            assert(tokens@[i as int].token_index >= group.tokens@.len());
            return false;
        }
        i = i + 1;
    }
    true
}

/// The instruction that settles the funds of a user in the market that a check names.
pub fn settle_user_funds(
    cypher_group: &CypherGroup,
    dex_market_state: &DexMarketState,
    cypher_user: &CypherUser,
    cypher_user_pubkey: &Pubkey,
    check: &LiquidationCheck,
) -> (r: SettleFunds)
    requires
        check.market_index < cypher_group.markets@.len(),
        check.market_index < cypher_group.tokens@.len(),
    ensures
        r == settle_funds(
            cypher_group,
            &cypher_group.markets@[check.market_index as int],
            &cypher_group.tokens@[check.market_index as int],
            dex_market_state,
            check.open_orders_pubkey,
            *cypher_user_pubkey,
            cypher_user.user_signer,
        ),
{
    get_settle_funds_ix(
        cypher_group,
        cypher_group.get_cypher_market(check.market_index),
        cypher_group.get_cypher_token(check.market_index),
        dex_market_state,
        &check.open_orders_pubkey,
        cypher_user_pubkey,
        &cypher_user.user_signer,
    )
}

/// The instructions that cancel the orders of a user that a check lists, in their order.
pub fn cancel_user_orders(
    cypher_group: &CypherGroup,
    dex_market_state: &DexMarketState,
    cypher_user: &CypherUser,
    cypher_user_pubkey: &Pubkey,
    check: &LiquidationCheck,
) -> (r: Vec<CancelOrder>)
    requires
        check.market_index < cypher_group.markets@.len(),
        check.market_index < cypher_group.tokens@.len(),
    ensures
        r@.len() == check.orders@.len(),
        forall|i: int|
            0 <= i < r@.len() ==> #[trigger] r@[i] == cancel_order(
                cypher_group,
                &cypher_group.markets@[check.market_index as int],
                &cypher_group.tokens@[check.market_index as int],
                dex_market_state,
                check.open_orders_pubkey,
                *cypher_user_pubkey,
                cypher_user.user_signer,
                check.orders@[i],
            ),
{
    let cypher_market = cypher_group.get_cypher_market(check.market_index);
    let cypher_token = cypher_group.get_cypher_token(check.market_index);
    let mut ixs: Vec<CancelOrder> = Vec::new();
    let mut i: usize = 0;
    while i < check.orders.len()
        invariant
            i <= check.orders@.len(),
            ixs@.len() == i,
            check.market_index < cypher_group.markets@.len(),
            check.market_index < cypher_group.tokens@.len(),
            *cypher_market == cypher_group.markets@[check.market_index as int],
            *cypher_token == cypher_group.tokens@[check.market_index as int],
            forall|j: int|
                0 <= j < i ==> #[trigger] ixs@[j] == cancel_order(
                    cypher_group,
                    cypher_market,
                    cypher_token,
                    dex_market_state,
                    check.open_orders_pubkey,
                    *cypher_user_pubkey,
                    cypher_user.user_signer,
                    check.orders@[j],
                ),
        decreases check.orders@.len() - i,
    {
        ixs.push(
            get_cancel_order_ix(
                cypher_group,
                cypher_market,
                cypher_token,
                dex_market_state,
                &check.open_orders_pubkey,
                cypher_user_pubkey,
                &cypher_user.user_signer,
                &check.orders[i],
            ),
        );
        i = i + 1;
    }
    ixs
}

} // verus!
