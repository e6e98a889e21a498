//! A liquidator that goes through all known users by itself.
//!
//! It takes the token that it has deposited most of and the one that the user has borrowed most
//! of, and the first market in which the user is below the maintenance ratio.
use vstd::prelude::*;

use crate::accounts_cache::{AccountState, AccountView, AccountsCache};
use crate::config::cypher_config::CypherTokenConfig;
use crate::cypher_account_service::{asks_for_users, users_request, ProgramAccountsRequest};
use crate::liquidator::{
    all_in_group, below_mint_maintenance, check_can_liquidate, may_liquidate, ratio_known,
    Liquidator,
};
use crate::mints::{borrows_of, deposits_of, tokens_in_group};
use crate::number::Number;
use crate::pubkey::Pubkey;
use crate::snapshot::{is_laid_out, Layout};
use crate::states::{CypherGroup, CypherUser};
use crate::utils::{
    account_body, get_liquidate_collateral_ixs, get_liquidate_market_collateral_ixs,
    law_account_is_told_by_its_first_bytes, LiquidateCollateral, LiquidateMarketCollateral,
};

verus! {

/// The size of an account of a user that a sweep asks for.
pub const SWEPT_ACCOUNT_SIZE: u64 = 3960;

/// The highest amount of the first tokens with the index of the first token that has it; the
/// index zero where no amount is above zero.
pub open spec fn leader(
    tokens: Seq<CypherTokenConfig>,
    amount: spec_fn(usize) -> nat,
    n: int,
) -> (nat, usize)
    decreases n,
{
    if n <= 0 {
        (0, 0)
    } else {
        let before = leader(tokens, amount, n - 1);
        let idx = tokens[n - 1].token_index;
        if amount(idx) > before.0 {
            (amount(idx), idx)
        } else {
            before
        }
    }
}

/// No amount is above that of the leader; where one is above zero the leader is a token that
/// has it, and no token before it has as much.
pub proof fn law_leader_is_first_highest(
    tokens: Seq<CypherTokenConfig>,
    amount: spec_fn(usize) -> nat,
    n: int,
)
    requires
        0 <= n <= tokens.len(),
    ensures
        forall|i: int|
            0 <= i < n ==> amount((#[trigger] tokens[i]).token_index) <= leader(
                tokens,
                amount,
                n,
            ).0,
        leader(tokens, amount, n).0 == 0 ==> leader(tokens, amount, n).1 == 0,
        leader(tokens, amount, n).0 > 0 ==> exists|i: int|
            {
                &&& 0 <= i < n
                &&& (#[trigger] tokens[i]).token_index == leader(tokens, amount, n).1
                &&& amount(tokens[i].token_index) == leader(tokens, amount, n).0
                &&& forall|j: int|
                    0 <= j < i ==> amount((#[trigger] tokens[j]).token_index) < leader(
                        tokens,
                        amount,
                        n,
                    ).0
            },
    decreases n,
{
    if n > 0 {
        law_leader_is_first_highest(tokens, amount, n - 1);
        let before = leader(tokens, amount, n - 1);
        if amount(tokens[n - 1].token_index) > before.0 {
            assert(tokens[n - 1].token_index == leader(tokens, amount, n).1);
        }
    }
}

/// What a user has borrowed of each token.
pub open spec fn all_borrows(user: &CypherUser) -> spec_fn(usize) -> nat {
    |idx: usize| borrows_of(user, idx)
}

/// What a user has deposited of each token.
pub open spec fn all_deposits(user: &CypherUser) -> spec_fn(usize) -> nat {
    |idx: usize| deposits_of(user, idx)
}

/// The index of the token that a user has borrowed most of.
pub open spec fn top_borrow(tokens: Seq<CypherTokenConfig>, user: &CypherUser) -> usize {
    leader(tokens, all_borrows(user), tokens.len() as int).1
}

/// The index of the token that a user has deposited most of.
pub open spec fn top_deposit(tokens: Seq<CypherTokenConfig>, user: &CypherUser) -> usize {
    leader(tokens, all_deposits(user), tokens.len() as int).1
}

/// The token that a user has borrowed most of in total is the first with the highest total; where
/// no total is above zero, for which a negative number stands, it is the one with index zero.
pub proof fn law_top_borrow_has_highest_total(tokens: Seq<CypherTokenConfig>, user: &CypherUser, c: int)
    requires
        ({
            let total = |i: int|
                {
                    let idx = tokens[i].token_index as int;
                    if idx < user.positions@.len() && user.positions@[idx] is Some {
                        user.positions@[idx]->Some_0.total_borrows@
                    } else {
                        0
                    }
                };
            &&& forall|i: int|
                #![trigger tokens[i]]
                0 <= i < tokens.len() && c < 0 ==> total(i) == 0
            &&& c < tokens.len()
            &&& 0 <= c ==> total(c) > 0
            &&& forall|i: int|
                #![trigger tokens[i]]
                0 <= i < tokens.len() && 0 <= c ==> total(i) <= total(c)
            &&& forall|i: int|
                #![trigger tokens[i]]
                0 <= i < c ==> total(i) < total(c)
        }),
    ensures
        top_borrow(tokens, user) == if 0 <= c {
            tokens[c].token_index
        } else {
            0
        },
{
    let amount = all_borrows(user);
    law_leader_is_first_highest(tokens, amount, tokens.len() as int);
    let best = leader(tokens, amount, tokens.len() as int);
    if 0 <= c {
        assert(amount(tokens[c].token_index) <= best.0);
    }
}

/// The token that a user has deposited most of in total is the first with the highest total; where
/// no total is above zero, for which a negative number stands, it is the one with index zero.
pub proof fn law_top_deposit_has_highest_total(tokens: Seq<CypherTokenConfig>, user: &CypherUser, c: int)
    requires
        ({
            let total = |i: int|
                {
                    let idx = tokens[i].token_index as int;
                    if idx < user.positions@.len() && user.positions@[idx] is Some {
                        user.positions@[idx]->Some_0.total_deposits@
                    } else {
                        0
                    }
                };
            &&& forall|i: int|
                #![trigger tokens[i]]
                0 <= i < tokens.len() && c < 0 ==> total(i) == 0
            &&& c < tokens.len()
            &&& 0 <= c ==> total(c) > 0
            &&& forall|i: int|
                #![trigger tokens[i]]
                0 <= i < tokens.len() && 0 <= c ==> total(i) <= total(c)
            &&& forall|i: int|
                #![trigger tokens[i]]
                0 <= i < c ==> total(i) < total(c)
        }),
    ensures
        top_deposit(tokens, user) == if 0 <= c {
            tokens[c].token_index
        } else {
            0
        },
{
    let amount = all_deposits(user);
    law_leader_is_first_highest(tokens, amount, tokens.len() as int);
    let best = leader(tokens, amount, tokens.len() as int);
    if 0 <= c {
        assert(amount(tokens[c].token_index) <= best.0);
    }
}

/// Whether the margin ratio of a user is below the maintenance ratio, and the token that the
/// user has borrowed most of; nothing where the ratio is not known or a token is not one of the
/// group.
pub open spec fn swept_check(
    tokens: Seq<CypherTokenConfig>,
    group: &CypherGroup,
    user: &CypherUser,
) -> Option<(bool, usize)> {
    if user.margin_c_ratio is None {
        None
    } else if user.margin_c_ratio->Some_0@ >= group.margin_maint_ratio@ {
        Some((false, 0))
    } else if !tokens_in_group(tokens, group) {
        None
    } else {
        Some((true, top_borrow(tokens, user)))
    }
}

/// The first market, from a token on and before the quote token, in which the user is below the
/// maintenance ratio; nothing where a market on the way is not one of the group.
pub open spec fn first_below(
    tokens: Seq<CypherTokenConfig>,
    group: &CypherGroup,
    user: &CypherUser,
    from: int,
) -> Option<(bool, usize)>
    decreases tokens.len() - from,
{
    if from < 0 || from >= tokens.len() {
        Some((false, 0))
    } else {
        let idx = tokens[from].token_index;
        if idx == group.quote_token_idx {
            Some((false, 0))
        } else if idx >= group.markets@.len() {
            None
        } else if below_mint_maintenance(group, user, idx, false) {
            Some((true, idx))
        } else {
            first_below(tokens, group, user, from + 1)
        }
    }
}

/// The index of the token that a user has deposited most of.
pub fn get_liquidator_asset_mint(tokens: &Vec<CypherTokenConfig>, cypher_liqor: &CypherUser) -> (r:
    usize)
    ensures
        r == top_deposit(tokens@, cypher_liqor),
{
    let mut highest_deposit = Number::zero();
    let mut highest_deposit_idx: usize = 0;
    let mut n: usize = 0;
    while n < tokens.len()
        invariant
            n <= tokens@.len(),
            (highest_deposit@, highest_deposit_idx) == leader(
                tokens@,
                all_deposits(cypher_liqor),
                n as int,
            ),
        decreases tokens@.len() - n,
    {
        let token_index: usize = tokens[n].token_index;
        if let Some(position) = cypher_liqor.get_position(token_index) {
            if highest_deposit.below(position.total_deposits) {
                highest_deposit = position.total_deposits;
                highest_deposit_idx = token_index;
            }
        }
        n = n + 1;
    }
    highest_deposit_idx
}

/// Whether the collateral of a user is to be liquidated, and the token that the user has
/// borrowed most of.
pub fn check_collateral(
    tokens: &Vec<CypherTokenConfig>,
    cypher_group: &CypherGroup,
    cypher_user: &CypherUser,
) -> (r: Option<(bool, usize)>)
    ensures
        r == swept_check(tokens@, cypher_group, cypher_user),
{
    if !cypher_user.margin_c_ratio?.below(cypher_group.margin_maint_ratio) {
        return Some((false, 0));
    }
    if !all_in_group(tokens, cypher_group) {
        return None;
    }
    let mut highest_borrow = Number::zero();
    let mut highest_borrow_idx: usize = 0;
    let mut n: usize = 0;
    while n < tokens.len()
        invariant
            n <= tokens@.len(),
            (highest_borrow@, highest_borrow_idx) == leader(
                tokens@,
                all_borrows(cypher_user),
                n as int,
            ),
        decreases tokens@.len() - n,
    {
        let token_index: usize = tokens[n].token_index;
        if let Some(position) = cypher_user.get_position(token_index) {
            if highest_borrow.below(position.total_borrows) {
                highest_borrow = position.total_borrows;
                highest_borrow_idx = token_index;
            }
        }
        n = n + 1;
    }
    Some((true, highest_borrow_idx))
}

/// Whether the market collateral of a user is to be liquidated, and in which market.
pub fn check_market_collateral(
    tokens: &Vec<CypherTokenConfig>,
    cypher_group: &CypherGroup,
    cypher_user: &CypherUser,
) -> (r: Option<(bool, usize)>)
    ensures
        r == first_below(tokens@, cypher_group, cypher_user, 0),
{
    let mut n: usize = 0;
    while n < tokens.len()
        invariant
            n <= tokens@.len(),
            first_below(tokens@, cypher_group, cypher_user, 0) == first_below(
                tokens@,
                cypher_group,
                cypher_user,
                n as int,
            ),
        decreases tokens@.len() - n,
    {
        let idx: usize = tokens[n].token_index;
        if idx == cypher_group.quote_token_idx {
            return Some((false, 0));
        }
        if idx >= cypher_group.markets.len() {
            return None;
        }
        let mint_maint_ratio = cypher_group.get_cypher_market(idx).mint_maint_ratio;
        if let Some(user_c_asset) = cypher_user.get_c_asset(idx) {
            if let Some(asset_mint_c_ratio) = user_c_asset.get_mint_c_ratio(false) {
                if asset_mint_c_ratio.below(mint_maint_ratio) {
                    return Some((true, idx));
                }
            }
        }
        n = n + 1;
    }
    Some((false, 0))
}

/// Whether a sweep goes on to the next token: the token is not the quote token, its market is one
/// of the group, and the user is not below the maintenance ratio in it.
pub open spec fn passed_by(group: &CypherGroup, user: &CypherUser, token_index: usize) -> bool {
    &&& token_index != group.quote_token_idx
    &&& token_index < group.markets@.len()
    &&& !below_mint_maintenance(group, user, token_index, false)
}

/// The token at which a sweep for market collateral ends: it passes by all tokens before, and
/// finds the market of the token exactly where the user is below the maintenance ratio in it.
/// Otherwise nothing is found where there is no such token or it is the quote token, and there
/// is no outcome where its market is not one of the group.
pub proof fn law_first_below(
    tokens: Seq<CypherTokenConfig>,
    group: &CypherGroup,
    user: &CypherUser,
    from: int,
) -> (stop: int)
    requires
        0 <= from <= tokens.len(),
    ensures
        from <= stop <= tokens.len(),
        forall|j: int|
            from <= j < stop ==> passed_by(group, user, (#[trigger] tokens[j]).token_index),
        stop < tokens.len() ==> !passed_by(group, user, tokens[stop].token_index),
        first_below(tokens, group, user, from) == if stop == tokens.len()
            || tokens[stop].token_index == group.quote_token_idx {
            Some((false, 0usize))
        } else if tokens[stop].token_index >= group.markets@.len() {
            None
        } else {
            Some((true, tokens[stop].token_index))
        },
    decreases tokens.len() - from,
{
    if from < tokens.len() && passed_by(group, user, tokens[from].token_index) {
        law_first_below(tokens, group, user, from + 1)
    } else {
        from
    }
}

/// A sweep for market collateral over the accounts themselves: it goes on while the token is not
/// the quote token, its market is one of the group, and the ratio of the user in that market,
/// asked for with the flag clear, is not below the maintenance ratio of the same market. Where it
/// stops at a token, the market of that token is found exactly where the ratio is below.
pub proof fn law_swept_market_is_first_below_its_own_ratio(
    tokens: Seq<CypherTokenConfig>,
    group: &CypherGroup,
    user: &CypherUser,
    stop: int,
)
    requires
        ({
            let below = |i: int|
                {
                    let idx = tokens[i].token_index as int;
                    &&& tokens[i].token_index != group.quote_token_idx
                    &&& idx < user.c_assets@.len()
                    &&& user.c_assets@[idx] is Some
                    &&& user.c_assets@[idx]->Some_0.mint_c_ratio_unflagged is Some
                    &&& user.c_assets@[idx]->Some_0.mint_c_ratio_unflagged->Some_0@
                        < group.markets@[idx].mint_maint_ratio@
                };
            &&& 0 <= stop <= tokens.len()
            &&& forall|j: int|
                #![trigger tokens[j]]
                0 <= j < stop ==> tokens[j].token_index != group.quote_token_idx
                    && tokens[j].token_index < group.markets@.len() && !below(j)
        }),
    ensures
        ({
            let below = |i: int|
                {
                    let idx = tokens[i].token_index as int;
                    &&& tokens[i].token_index != group.quote_token_idx
                    &&& idx < user.c_assets@.len()
                    &&& user.c_assets@[idx] is Some
                    &&& user.c_assets@[idx]->Some_0.mint_c_ratio_unflagged is Some
                    &&& user.c_assets@[idx]->Some_0.mint_c_ratio_unflagged->Some_0@
                        < group.markets@[idx].mint_maint_ratio@
                };
            &&& stop == tokens.len() || tokens[stop].token_index == group.quote_token_idx
                ==> first_below(tokens, group, user, 0) == Some((false, 0usize))
            &&& stop < tokens.len() && tokens[stop].token_index != group.quote_token_idx
                && tokens[stop].token_index >= group.markets@.len() ==> first_below(
                tokens,
                group,
                user,
                0,
            ) is None
            &&& stop < tokens.len() && tokens[stop].token_index < group.markets@.len() && below(
                stop,
            ) ==> first_below(tokens, group, user, 0) == Some((true, tokens[stop].token_index))
        }),
{
    let end = law_first_below(tokens, group, user, 0);
    if end < stop {
        assert(passed_by(group, user, tokens[end].token_index));
    }
    if stop < end {
        assert(passed_by(group, user, tokens[stop].token_index));
    }
}

/// A check in a sweep over the accounts themselves: there is none without a margin ratio, a user
/// whose ratio is not below the maintenance ratio is left alone, and otherwise all configured
/// tokens have to be ones of the group.
pub proof fn law_swept_check_compares_with_maintenance(
    tokens: Seq<CypherTokenConfig>,
    group: &CypherGroup,
    user: &CypherUser,
)
    ensures
        user.margin_c_ratio is None ==> swept_check(tokens, group, user) is None,
        user.margin_c_ratio is Some && user.margin_c_ratio->Some_0@ >= group.margin_maint_ratio@
            ==> swept_check(tokens, group, user) == Some((false, 0usize)),
        user.margin_c_ratio is Some && user.margin_c_ratio->Some_0@ < group.margin_maint_ratio@
            ==> swept_check(tokens, group, user) == if (forall|i: int|
            0 <= i < tokens.len() ==> (#[trigger] tokens[i]).token_index < group.tokens@.len()) {
            Some((true, top_borrow(tokens, user)))
        } else {
            None
        },
{
}

/// Whether a sweep liquidates the collateral of a user.
pub open spec fn sweeps_collateral(
    tokens: Seq<CypherTokenConfig>,
    group: &CypherGroup,
    user: &CypherUser,
    liqor_at_check: Option<&CypherUser>,
) -> bool {
    swept_check(tokens, group, user)->Some_0.0 && may_liquidate(group, liqor_at_check)
}

/// Whether the configuration and the accounts go together as far as a sweep of the collateral
/// of a user needs them.
pub open spec fn collateral_sweepable(
    tokens: Seq<CypherTokenConfig>,
    group: &CypherGroup,
    user: &CypherUser,
    liqor_at_check: Option<&CypherUser>,
    liqor: Option<&CypherUser>,
) -> bool {
    let check = swept_check(tokens, group, user);
    &&& check is Some
    &&& check->Some_0.0 ==> ratio_known(liqor_at_check)
    &&& sweeps_collateral(tokens, group, user, liqor_at_check) ==> {
        &&& liqor is Some
        &&& top_deposit(tokens, liqor->Some_0) < group.tokens@.len()
        &&& check->Some_0.1 < group.tokens@.len()
    }
}

/// Whether a sweep liquidates the market collateral of a user.
pub open spec fn sweeps_market(
    tokens: Seq<CypherTokenConfig>,
    group: &CypherGroup,
    user: &CypherUser,
    liqor: Option<&CypherUser>,
) -> bool {
    first_below(tokens, group, user, 0)->Some_0.0 && may_liquidate(group, liqor)
}

/// Whether the configuration and the accounts go together as far as a sweep of the market
/// collateral of a user needs them.
pub open spec fn market_sweepable(
    tokens: Seq<CypherTokenConfig>,
    group: &CypherGroup,
    user: &CypherUser,
    liqor: Option<&CypherUser>,
) -> bool {
    let check = first_below(tokens, group, user, 0);
    &&& check is Some
    &&& check->Some_0.0 ==> check->Some_0.1 < group.tokens@.len() && ratio_known(liqor)
}

/// A liquidator below the initial margin ratio, or without an account, sweeps nobody.
pub proof fn law_unfit_liquidator_sweeps_nobody(
    tokens: Seq<CypherTokenConfig>,
    group: &CypherGroup,
    user: &CypherUser,
    liqor: Option<&CypherUser>,
)
    requires
        !may_liquidate(group, liqor),
    ensures
        !sweeps_collateral(tokens, group, user, liqor),
        !sweeps_market(tokens, group, user, liqor),
{
}

/// What a sweep of the collateral of a user does, over the accounts themselves: it liquidates
/// exactly where the user is below the maintenance ratio and the liquidator is there and not below
/// the initial ratio. It has an outcome where the ratios that it compares are known, and for a
/// liquidation where the liquidator is still there and both tokens are ones of the group.
pub proof fn law_collateral_sweep_compares_ratios(
    tokens: Seq<CypherTokenConfig>,
    group: &CypherGroup,
    user: &CypherUser,
    liqor_at_check: Option<&CypherUser>,
    liqor: Option<&CypherUser>,
)
    ensures
        ({
            let below = user.margin_c_ratio->Some_0@ < group.margin_maint_ratio@;
            let in_group = forall|i: int|
                0 <= i < tokens.len() ==> (#[trigger] tokens[i]).token_index < group.tokens@.len();
            let fit = liqor_at_check is Some && liqor_at_check->Some_0.margin_c_ratio->Some_0@
                >= group.margin_init_ratio@;
            &&& collateral_sweepable(tokens, group, user, liqor_at_check, liqor) <==> {
                &&& user.margin_c_ratio is Some
                &&& below ==> in_group && (liqor_at_check is Some
                    ==> liqor_at_check->Some_0.margin_c_ratio is Some)
                &&& below && fit ==> liqor is Some && top_deposit(tokens, liqor->Some_0)
                    < group.tokens@.len() && top_borrow(tokens, user) < group.tokens@.len()
            }
            &&& collateral_sweepable(tokens, group, user, liqor_at_check, liqor) ==> (
            sweeps_collateral(tokens, group, user, liqor_at_check) <==> below && fit)
        }),
{
}

/// What a sweep of the market collateral of a user does: it liquidates exactly where a market is
/// found and the liquidator is there and not below the initial ratio.
pub proof fn law_market_sweep_compares_ratios(
    tokens: Seq<CypherTokenConfig>,
    group: &CypherGroup,
    user: &CypherUser,
    liqor: Option<&CypherUser>,
)
    ensures
        ({
            let found = first_below(tokens, group, user, 0);
            &&& market_sweepable(tokens, group, user, liqor) <==> {
                &&& found is Some
                &&& found->Some_0.0 ==> found->Some_0.1 < group.tokens@.len() && (liqor is Some
                    ==> liqor->Some_0.margin_c_ratio is Some)
            }
            &&& market_sweepable(tokens, group, user, liqor) ==> (sweeps_market(
                tokens,
                group,
                user,
                liqor,
            ) <==> found->Some_0.0 && liqor is Some && liqor->Some_0.margin_c_ratio->Some_0@
                >= group.margin_init_ratio@)
        }),
{
}

impl Liquidator {
    /// The request for the accounts of all users of the group.
    pub fn all_accounts_request(&self) -> (r: ProgramAccountsRequest)
        ensures
            asks_for_users(r, self.cypher_group_pubkey@, SWEPT_ACCOUNT_SIZE, true),
    {
        users_request(&self.cypher_group_pubkey, SWEPT_ACCOUNT_SIZE, true)
    }

    /// The liquidation of the collateral of a user in a sweep, where there is to be one. The
    /// liquidator's account is looked at twice: for whether it may liquidate, and for what it
    /// liquidates with.
    pub fn sweep_collateral(
        &self,
        cypher_group: &CypherGroup,
        cypher_user: &CypherUser,
        cypher_user_pubkey: &Pubkey,
        liqor_at_check: Option<&CypherUser>,
        cypher_liqor: Option<&CypherUser>,
    ) -> (r: Option<Option<LiquidateCollateral>>)
        ensures
            r is Some <==> self.group_config() is Some && collateral_sweepable(
                self.tokens(),
                cypher_group,
                cypher_user,
                liqor_at_check,
                cypher_liqor,
            ),
            r is Some ==> (r->Some_0 is Some <==> sweeps_collateral(
                self.tokens(),
                cypher_group,
                cypher_user,
                liqor_at_check,
            )),
            r is Some && r->Some_0 is Some ==> self.liquidation_is(
                r->Some_0->Some_0,
                cypher_group,
                *cypher_user_pubkey,
                cypher_group.tokens@[top_deposit(
                    self.tokens(),
                    cypher_liqor->Some_0,
                ) as int].mint@,
                cypher_group.tokens@[top_borrow(self.tokens(), cypher_user) as int].mint@,
            ),
    {
        let config = self.get_group_config()?;
        let (can_liq, token_idx) = check_collateral(&config.tokens, cypher_group, cypher_user)?;
        if !can_liq || !check_can_liquidate(cypher_group, liqor_at_check)? {
            return Some(None);
        }
        let asset_mint_idx: usize = get_liquidator_asset_mint(&config.tokens, cypher_liqor?);
        if asset_mint_idx >= cypher_group.tokens.len() || token_idx >= cypher_group.tokens.len() {
            return None;
        }
        Some(
            Some(
                get_liquidate_collateral_ixs(
                    cypher_group,
                    &cypher_group.get_cypher_token(asset_mint_idx).mint,
                    &cypher_group.get_cypher_token(token_idx).mint,
                    &self.cypher_liqor_pubkey,
                    cypher_user_pubkey,
                    &self.signer,
                ),
            ),
        )
    }

    /// The liquidation of the market collateral of a user in a sweep, where there is to be one.
    pub fn sweep_market_collateral(
        &self,
        cypher_group: &CypherGroup,
        cypher_user: &CypherUser,
        cypher_user_pubkey: &Pubkey,
        cypher_liqor: Option<&CypherUser>,
    ) -> (r: Option<Option<LiquidateMarketCollateral>>)
        ensures
            r is Some <==> self.group_config() is Some && market_sweepable(
                self.tokens(),
                cypher_group,
                cypher_user,
                cypher_liqor,
            ),
            r is Some ==> (r->Some_0 is Some <==> sweeps_market(
                self.tokens(),
                cypher_group,
                cypher_user,
                cypher_liqor,
            )),
            r is Some && r->Some_0 is Some ==> self.market_liquidation_is(
                r->Some_0->Some_0,
                cypher_group,
                *cypher_user_pubkey,
                first_below(self.tokens(), cypher_group, cypher_user, 0)->Some_0.1 as int,
            ),
    {
        let config = self.get_group_config()?;
        let (can_liq, token_idx) = check_market_collateral(
            &config.tokens,
            cypher_group,
            cypher_user,
        )?;
        if !can_liq {
            return Some(None);
        }
        proof {
            let _ = law_first_below(self.tokens(), cypher_group, cypher_user, 0);
        }
        if token_idx >= cypher_group.tokens.len() {
            return None;
        }
        if !check_can_liquidate(cypher_group, cypher_liqor)? {
            return Some(None);
        }
        Some(
            Some(
                get_liquidate_market_collateral_ixs(
                    cypher_group,
                    cypher_group.get_cypher_market(token_idx),
                    cypher_group.get_cypher_token(token_idx),
                    &self.cypher_liqor_pubkey,
                    cypher_user_pubkey,
                    &self.signer,
                ),
            ),
        )
    }
}

/// Accounts with further ones, later ones in place of earlier ones.
pub open spec fn with_accounts(
    map: Map<Seq<u8>, AccountView>,
    accounts: Seq<(Pubkey, AccountState)>,
) -> Map<Seq<u8>, AccountView>
    decreases accounts.len(),
{
    if accounts.len() == 0 {
        map
    } else {
        with_accounts(map, accounts.drop_last()).insert(
            accounts.last().0@,
            accounts.last().1@,
        )
    }
}

/// Of the accounts with an address the last is kept; where there is none, what was there stays.
pub proof fn law_last_account_is_kept(
    map: Map<Seq<u8>, AccountView>,
    accounts: Seq<(Pubkey, AccountState)>,
    key: Seq<u8>,
    last: int,
)
    requires
        last < accounts.len(),
        0 <= last ==> accounts[last].0@ == key,
        forall|i: int| 0 <= i < accounts.len() && last < i ==> (#[trigger] accounts[i]).0@ != key,
    ensures
        0 <= last ==> with_accounts(map, accounts).dom().contains(key) && with_accounts(
            map,
            accounts,
        )[key] == accounts[last].1@,
        last < 0 ==> with_accounts(map, accounts).dom().contains(key) == map.dom().contains(key),
        last < 0 && map.dom().contains(key) ==> with_accounts(map, accounts)[key] == map[key],
    decreases accounts.len(),
{
    if accounts.len() > 0 {
        let rest = accounts.drop_last();
        let n = accounts.len() - 1;
        assert(accounts.last() == accounts[n]);
        if last < n {
            assert(accounts[n].0@ != key);
            assert forall|i: int| 0 <= i < rest.len() && last < i implies (#[trigger] rest[i]).0@
                != key by {
                assert(rest[i] == accounts[i]);
            }
            law_last_account_is_kept(map, rest, key, last);
        }
    }
}

/// Whether all accounts are of a layout.
pub open spec fn all_laid_out(accounts: Seq<(Pubkey, AccountState)>, layout: Layout) -> bool {
    forall|i: int|
        0 <= i < accounts.len() ==> is_laid_out((#[trigger] accounts[i]).1@.data, layout)
}

/// Fetched accounts are all those of users exactly where each starts as the layout says and is
/// long enough.
pub proof fn law_all_start_as_the_layout_says(
    accounts: Seq<(Pubkey, AccountState)>,
    layout: Layout,
)
    ensures
        all_laid_out(accounts, layout) <==> forall|i: int|
            #![trigger accounts[i]]
            0 <= i < accounts.len() ==> accounts[i].1.account.data@.len() >= 8 + layout.size
                && forall|j: int|
                0 <= j < 8 ==> accounts[i].1.account.data@[j]
                    == #[trigger] layout.discriminator@[j],
{
    assert forall|i: int| #![trigger accounts[i]] 0 <= i < accounts.len() implies (is_laid_out(
        accounts[i].1@.data,
        layout,
    ) <==> accounts[i].1.account.data@.len() >= 8 + layout.size && forall|j: int|
        0 <= j < 8 ==> accounts[i].1.account.data@[j] == #[trigger] layout.discriminator@[j]) by {
        law_account_is_told_by_its_first_bytes(
            accounts[i].1.account.data@,
            layout.discriminator,
            layout.size as int,
        );
    }
}

/// Keeps the accounts of users that were fetched, and says whether they all are such; where
/// they are not, none is kept.
pub fn store_users(
    cache: &mut AccountsCache,
    accounts: Vec<(Pubkey, AccountState)>,
    layout: &Layout,
) -> (r: bool)
    ensures
        r == all_laid_out(accounts@, *layout),
        r ==> final(cache)@ == with_accounts(old(cache)@, accounts@),
        !r ==> final(cache)@ == old(cache)@,
{
    let ghost all = accounts@;
    let mut i: usize = 0;
    while i < accounts.len()
        invariant
            i <= accounts@.len(),
            forall|j: int|
                0 <= j < i ==> is_laid_out((#[trigger] accounts@[j]).1@.data, *layout),
        decreases accounts@.len() - i,
    {
        if account_body(
            &accounts[i].1.account.data,
            &layout.discriminator,
            layout.size,
        ).is_none() {
            assert(!is_laid_out(accounts@[i as int].1@.data, *layout));
            return false;
        }
        i = i + 1;
    }
    let mut rest = accounts;
    let ghost mut kept: int = 0;
    assert(all.skip(0) =~= all);
    assert(all.take(0) =~= Seq::empty());
    while rest.len() > 0
        invariant
            0 <= kept <= all.len(),
            all == accounts@,
            rest@ == all.skip(kept),
            cache@ == with_accounts(old(cache)@, all.take(kept)),
        decreases rest@.len(),
    {
        let (key, state) = rest.remove(0);
        proof {
            assert(all.take(kept + 1).drop_last() =~= all.take(kept));
            assert(all.take(kept + 1).last() == (key, state));
            assert(rest@ =~= all.skip(kept + 1));
        }
        let _ = cache.insert(key, state);
        proof {
            kept = kept + 1;
        }
    }
    assert(all.take(all.len() as int) =~= all);
    true
}

} // verus!
