//! What a liquidation would move, computed ahead of the transaction.
use vstd::prelude::*;

use crate::number::{
    capacity, lemma_product_fits, lesser, product, quotient, scale, whole, whole_ceil, Number,
};
use crate::pubkey::Pubkey;
use crate::states::{
    law_token_idx_is_first, CypherCAsset, CypherGroup, CypherMarket, CypherUser,
};
use crate::text::{parse_u64, unsigned_value};

verus! {

/// The balance of a token account, in native units as text.
#[derive(Clone, Debug, PartialEq, Eq)]
pub struct UiTokenAmount {
    pub amount: String,
}

/// What a liquidation of collateral moves: the amount repaid, what the liquidated user pays in
/// the asset, what the market's insurance fund pays, what the group's insurance fund receives,
/// and what the group's insurance fund pays.
pub type CollateralAmounts = (u64, u64, u64, u64, u64);

/// What a liquidation of market collateral moves: the amount repaid, what the liquidator
/// receives, what the liquidated user pays, what the market's insurance fund pays, and what the
/// group's insurance fund receives.
pub type MarketAmounts = (u64, u64, u64, u64, u64);

/// The token index and the price of a mint: the quote token is worth one.
pub open spec fn token_info(group: &CypherGroup, mint: Seq<u8>) -> (int, nat) {
    if mint == group.quote_mint@ {
        (group.quote_token_idx as int, 1)
    } else {
        let idx = group.token_idx(mint)->Some_0;
        (idx, group.markets@[idx].market_price as nat)
    }
}

/// Whether a mint has a token index and a price.
pub open spec fn token_known(group: &CypherGroup, mint: Seq<u8>) -> bool {
    mint == group.quote_mint@ || (group.token_idx(mint) is Some && group.token_idx(mint)->Some_0
        < group.markets@.len())
}

/// The part of the initial margin ratio that a liquidation leaves over its fees.
pub open spec fn margin_over_fees(ratio: nat, group: &CypherGroup) -> int {
    ratio - group.liq_liqor_fee@ - group.liq_insurance_fee@
}

/// Both fees of a liquidation.
pub open spec fn both_fees(group: &CypherGroup) -> nat {
    group.liq_liqor_fee@ + group.liq_insurance_fee@
}

/// The liabilities that have to go for the margin ratio to be the initial one again.
pub open spec fn excess_value(liabs: nat, assets: nat, ratio: nat, group: &CypherGroup) -> nat {
    quotient(
        (product(liabs, ratio) - assets) as nat,
        margin_over_fees(ratio, group) as nat,
    )
}

/// Whether [`excess_value`] has a value that fits.
pub open spec fn excess_defined(liabs: nat, assets: nat, ratio: nat, group: &CypherGroup) -> bool {
    &&& liabs * ratio < capacity()
    &&& assets <= product(liabs, ratio)
    &&& margin_over_fees(ratio, group) > 0
    &&& (product(liabs, ratio) - assets) * scale() < capacity()
}

/// What a user has borrowed of a token at a price.
pub open spec fn borrows_value(user: &CypherUser, info: (int, nat)) -> nat {
    user.position(info.0)->Some_0.total_borrows@ * info.1
}

/// What a user has deposited of a token at a price.
pub open spec fn deposits_value(user: &CypherUser, info: (int, nat)) -> nat {
    user.position(info.0)->Some_0.total_deposits@ * info.1
}

/// What may be repaid at most for the user to be back at the initial margin ratio.
pub open spec fn repay_value_limit(
    group: &CypherGroup,
    liqee: &CypherUser,
    liab_mint: Seq<u8>,
) -> nat {
    lesser(
        excess_value(
            liqee.liabs_value->Some_0@,
            liqee.assets_value->Some_0@,
            group.margin_init_ratio@,
            group,
        ),
        borrows_value(liqee, token_info(group, liab_mint)),
    )
}

/// Whether [`repay_value_limit`] has a value that fits.
pub open spec fn repay_value_defined(
    group: &CypherGroup,
    liqee: &CypherUser,
    liab_mint: Seq<u8>,
) -> bool {
    let liab = token_info(group, liab_mint);
    &&& token_known(group, liab_mint)
    &&& liqee.assets_value is Some
    &&& liqee.liabs_value is Some
    &&& excess_defined(
        liqee.liabs_value->Some_0@,
        liqee.assets_value->Some_0@,
        group.margin_init_ratio@,
        group,
    )
    &&& liqee.position(liab.0) is Some
    &&& liab.0 < group.tokens@.len()
    &&& borrows_value(liqee, liab) < capacity()
    &&& liqee.is_bankrupt is Some
}

/// The whole amount of the asset that the user has deposited, at the price of the asset.
pub open spec fn asset_position_value(
    group: &CypherGroup,
    liqee: &CypherUser,
    asset_mint: Seq<u8>,
) -> nat {
    let asset = token_info(group, asset_mint);
    whole(liqee.position(asset.0)->Some_0.total_deposits@) * asset.1
}

/// What the fees of a repayment leave room for: the asset position of a solvent user, the
/// insurance fund of the market for a bankrupt one.
pub open spec fn swap_value_limit(
    group: &CypherGroup,
    liqee: &CypherUser,
    asset_mint: Seq<u8>,
    liab_mint: Seq<u8>,
) -> nat {
    if liqee.is_bankrupt->Some_0 {
        quotient(
            group.markets@[token_info(group, liab_mint).0].insurance_fund as nat * scale(),
            group.liq_liqor_fee@,
        )
    } else {
        quotient(asset_position_value(group, liqee, asset_mint) * scale(), both_fees(group))
    }
}

/// Whether [`swap_value_limit`] has a value that fits.
pub open spec fn swap_value_defined(
    group: &CypherGroup,
    liqee: &CypherUser,
    asset_mint: Seq<u8>,
    liab_mint: Seq<u8>,
) -> bool {
    if liqee.is_bankrupt->Some_0 {
        group.liq_liqor_fee@ > 0
    } else {
        let asset = token_info(group, asset_mint);
        &&& liqee.position(asset.0) is Some
        &&& asset.0 < group.tokens@.len()
        &&& whole(liqee.position(asset.0)->Some_0.total_deposits@) <= u64::MAX
        &&& asset_position_value(group, liqee, asset_mint) <= u64::MAX
        &&& both_fees(group) > 0
    }
}

/// The amount that a liquidation of collateral repays outside the quote bankruptcy.
pub open spec fn collateral_repay_amount(
    group: &CypherGroup,
    liqor: &CypherUser,
    liqee: &CypherUser,
    asset_mint: Seq<u8>,
    liab_mint: Seq<u8>,
) -> nat {
    let liab = token_info(group, liab_mint);
    let value = lesser(
        repay_value_limit(group, liqee, liab_mint),
        lesser(
            deposits_value(liqor, liab),
            swap_value_limit(group, liqee, asset_mint, liab_mint),
        ),
    );
    whole(value / liab.1)
}

/// The scaled value of the repaid amount.
pub open spec fn collateral_repay_value(
    group: &CypherGroup,
    liqor: &CypherUser,
    liqee: &CypherUser,
    asset_mint: Seq<u8>,
    liab_mint: Seq<u8>,
) -> nat {
    collateral_repay_amount(group, liqor, liqee, asset_mint, liab_mint) * token_info(
        group,
        liab_mint,
    ).1 * scale()
}

/// A bankrupt user whose liability is the quote token is paid out of the group's insurance fund.
pub open spec fn is_quote_bankruptcy(
    group: &CypherGroup,
    liqee: &CypherUser,
    liab_mint: Seq<u8>,
) -> bool {
    liqee.is_bankrupt->Some_0 && liab_mint == group.quote_mint@
}

/// What the liquidated user pays in value: the repaid value with both fees.
pub open spec fn liqee_debit_value(group: &CypherGroup, repay_value: nat) -> nat {
    product(repay_value, group.liq_liqor_fee@) + product(repay_value, group.liq_insurance_fee@)
}

/// What a liquidation of collateral moves.
pub open spec fn collateral_amounts(
    group: &CypherGroup,
    liqor: &CypherUser,
    liqee: &CypherUser,
    asset_mint: Seq<u8>,
    liab_mint: Seq<u8>,
) -> (nat, nat, nat, nat, nat) {
    if is_quote_bankruptcy(group, liqee, liab_mint) {
        let amount = lesser(
            whole(repay_value_limit(group, liqee, liab_mint)),
            group.insurance_fund as nat,
        );
        (amount, 0, 0, 0, amount)
    } else {
        let amount = collateral_repay_amount(group, liqor, liqee, asset_mint, liab_mint);
        let value = collateral_repay_value(group, liqor, liqee, asset_mint, liab_mint);
        if liqee.is_bankrupt->Some_0 {
            (amount, 0, whole(product(value, group.liq_liqor_fee@)), 0, 0)
        } else {
            (
                amount,
                whole_ceil(liqee_debit_value(group, value) / token_info(group, asset_mint).1),
                0,
                whole(product(value, group.liq_insurance_fee@)),
                0,
            )
        }
    }
}

/// Whether a liquidation of collateral is one that the rules give amounts for: the mints and
/// the values are known, a bankrupt user pays in the quote token, and every amount on the way
/// fits.
pub open spec fn collateral_defined(
    group: &CypherGroup,
    liqor: &CypherUser,
    liqee: &CypherUser,
    asset_mint: Seq<u8>,
    liab_mint: Seq<u8>,
) -> bool {
    let liab = token_info(group, liab_mint);
    let asset = token_info(group, asset_mint);
    &&& token_known(group, asset_mint)
    &&& repay_value_defined(group, liqee, liab_mint)
    &&& liqee.is_bankrupt->Some_0 ==> asset_mint == group.quote_mint@
    &&& if is_quote_bankruptcy(group, liqee, liab_mint) {
        whole(repay_value_limit(group, liqee, liab_mint)) <= u64::MAX
    } else {
        let amount = collateral_repay_amount(group, liqor, liqee, asset_mint, liab_mint);
        &&& swap_value_defined(group, liqee, asset_mint, liab_mint)
        &&& liqor.position(liab.0) is Some
        &&& deposits_value(liqor, liab) < capacity()
        &&& liab.1 > 0
        &&& amount * liab.1 <= u64::MAX
        &&& !liqee.is_bankrupt->Some_0 ==> asset.1 > 0
    }
}

/// A value is within the quotient of a fund and a fee exactly where the fee on it is within the
/// fund.
proof fn lemma_fee_within_fund(worth: nat, fund: nat, fee: nat)
    requires
        fee > 0,
    ensures
        worth * scale() <= quotient(fund * scale(), fee) <==> worth * fee <= fund * scale(),
{
    let s = scale();
    lemma_product_fits(worth * s, fee, fund * s * s);
    assert(worth * s * fee == (worth * fee) * s) by (nonlinear_arith);
    assert((worth * fee) * s <= (fund * s) * s <==> worth * fee <= fund * s) by (nonlinear_arith)
        requires
            s > 0,
    ;
}

/// A number is within the whole part of a value over a price exactly where the number at the
/// price is within the value.
proof fn lemma_within_whole_over(n: nat, value: nat, price: nat)
    requires
        price > 0,
    ensures
        n <= whole(value / price) <==> n * price * scale() <= value,
{
    lemma_product_fits(n, scale(), value / price);
    lemma_product_fits(n * scale(), price, value);
    assert(n * scale() * price == n * price * scale()) by (nonlinear_arith);
}

/// A number at a price is within a balance at the same price exactly where it is within the
/// whole part of the balance.
proof fn lemma_within_balance(n: nat, price: nat, balance: nat)
    requires
        price > 0,
    ensures
        n * price * scale() <= balance * price <==> n <= whole(balance),
{
    let s = scale();
    lemma_product_fits(n, s, balance);
    assert(n * price * s <= balance * price <==> n * s <= balance) by (nonlinear_arith)
        requires
            price > 0,
    ;
}

/// The product with a whole number is exact.
proof fn lemma_product_of_whole(worth: nat, fee: nat)
    ensures
        product(worth * scale(), fee) == worth * fee,
{
    assert(worth * scale() * fee == (worth * fee) * scale()) by (nonlinear_arith);
    vstd::arithmetic::div_mod::lemma_div_by_multiple((worth * fee) as int, scale() as int);
}

/// The fee on a whole value within the fund, scaled twice, is far below the capacity.
proof fn lemma_fee_fits(worth: nat, fee: nat, fund: nat)
    requires
        worth * fee <= fund * scale(),
        fund <= u64::MAX,
    ensures
        worth * scale() * fee < capacity(),
        whole(product(worth * scale(), fee)) <= fund,
        product(worth * scale(), fee) <= fund * scale(),
{
    lemma_product_of_whole(worth, fee);
    assert(worth * scale() * fee == (worth * fee) * scale()) by (nonlinear_arith);
    vstd::arithmetic::div_mod::lemma_div_is_ordered(
        (worth * fee) as int,
        (fund * scale()) as int,
        scale() as int,
    );
    vstd::arithmetic::div_mod::lemma_div_by_multiple(fund as int, scale() as int);
}

/// A debit within a position at a price is no more of the asset than the position.
proof fn lemma_debit_within_position(debit: nat, position: nat, price: nat)
    requires
        price > 0,
        debit <= position * price * scale(),
    ensures
        whole_ceil(debit / price) <= position,
{
    let s = scale();
    assert(position * price * s == (position * s) * price) by (nonlinear_arith);
    vstd::arithmetic::div_mod::lemma_div_is_ordered(
        debit as int,
        ((position * s) * price) as int,
        price as int,
    );
    vstd::arithmetic::div_mod::lemma_div_by_multiple((position * s) as int, price as int);
    assert(debit / price <= position * s);
    assert(whole_ceil(debit / price) <= position);
}

/// The token index and the price of a mint, where it has both.
fn get_token_info(group: &CypherGroup, token_mint: &Pubkey) -> (r: Option<(usize, u64)>)
    ensures
        r is Some <==> token_known(group, token_mint@),
        r is Some ==> (r->Some_0.0 as int, r->Some_0.1 as nat) == token_info(group, token_mint@),
{
    if token_mint.same(&group.quote_mint) {
        return Some((group.quote_token_idx, 1));
    }
    let token_idx: usize = group.get_token_idx(token_mint)?;
    if token_idx >= group.markets.len() {
        return None;
    }
    Some((token_idx, group.get_cypher_market(token_idx).market_price))
}

/// The liabilities that have to go, where the value fits.
fn calc_excess_value(liabs: Number, assets: Number, ratio: Number, group: &CypherGroup) -> (r:
    Option<Number>)
    ensures
        r is Some <==> excess_defined(liabs@, assets@, ratio@, group),
        r is Some ==> r->Some_0@ == excess_value(liabs@, assets@, ratio@, group),
{
    let excess = liabs.checked_times(ratio)?.checked_minus(assets)?;
    let margin = ratio.checked_minus(group.liq_liqor_fee)?.checked_minus(group.liq_insurance_fee)?;
    excess.checked_over(margin)
}

/// What may be repaid at most, where the value fits.
fn calc_repay_value_limit(group: &CypherGroup, liqee_user: &CypherUser, liab_mint: &Pubkey) -> (r:
    Option<Number>)
    ensures
        r is Some <==> repay_value_defined(group, liqee_user, liab_mint@),
        r is Some ==> r->Some_0@ == repay_value_limit(group, liqee_user, liab_mint@),
{
    let (liab_token_idx, liab_price) = get_token_info(group, liab_mint)?;
    let excess_liabs_value = calc_excess_value(
        liqee_user.liabs_value?,
        liqee_user.assets_value?,
        group.margin_init_ratio,
        group,
    )?;
    let position = liqee_user.get_position(liab_token_idx)?;
    if liab_token_idx >= group.tokens.len() || liqee_user.is_bankrupt.is_none() {
        return None;
    }
    let loan_value = position.total_borrows.checked_times_u64(liab_price)?;
    Some(excess_liabs_value.lesser_of(loan_value))
}

/// What the fees leave room for, where the value fits.
fn calc_swap_value_limit(
    group: &CypherGroup,
    liqee_user: &CypherUser,
    asset_mint: &Pubkey,
    liab_mint: &Pubkey,
) -> (r: Option<Number>)
    requires
        token_known(group, asset_mint@),
        repay_value_defined(group, liqee_user, liab_mint@),
        !is_quote_bankruptcy(group, liqee_user, liab_mint@),
    ensures
        r is Some <==> swap_value_defined(group, liqee_user, asset_mint@, liab_mint@),
        r is Some ==> r->Some_0@ == swap_value_limit(
            group,
            liqee_user,
            asset_mint@,
            liab_mint@,
        ),
{
    if liqee_user.is_bankrupt? {
        let (liab_token_idx, _) = get_token_info(group, liab_mint)?;
        let fund = Number::from_u64(group.get_cypher_market(liab_token_idx).insurance_fund);
        fund.checked_over(group.liq_liqor_fee)
    } else {
        let (asset_token_idx, asset_price) = get_token_info(group, asset_mint)?;
        let position = liqee_user.get_position(asset_token_idx)?;
        if asset_token_idx >= group.tokens.len() {
            return None;
        }
        let deposits: u64 = position.total_deposits.checked_whole()?;
        let position_value: u64 = deposits.checked_mul(asset_price)?;
        let fees = group.liq_liqor_fee.checked_plus(group.liq_insurance_fee)?;
        Number::from_u64(position_value).checked_over(fees)
    }
}

/// The repaid amount and what is moved for it keep within the funds that they come from.
proof fn lemma_collateral_within_funds(
    group: &CypherGroup,
    liqor: &CypherUser,
    liqee: &CypherUser,
    asset_mint: Seq<u8>,
    liab_mint: Seq<u8>,
)
    requires
        collateral_defined(group, liqor, liqee, asset_mint, liab_mint),
        !is_quote_bankruptcy(group, liqee, liab_mint),
    ensures
        ({
            let amount = collateral_repay_amount(group, liqor, liqee, asset_mint, liab_mint);
            let worth = amount * token_info(group, liab_mint).1;
            &&& worth * scale() <= repay_value_limit(group, liqee, liab_mint)
            &&& worth * scale() <= deposits_value(liqor, token_info(group, liab_mint))
            &&& if liqee.is_bankrupt->Some_0 {
                worth * group.liq_liqor_fee@ <= group.markets@[token_info(
                    group,
                    liab_mint,
                ).0].insurance_fund * scale()
            } else {
                worth * both_fees(group) <= asset_position_value(group, liqee, asset_mint)
                    * scale()
            }
        }),
{
    let liab = token_info(group, liab_mint);
    let value = lesser(
        repay_value_limit(group, liqee, liab_mint),
        lesser(
            deposits_value(liqor, liab),
            swap_value_limit(group, liqee, asset_mint, liab_mint),
        ),
    );
    let amount = collateral_repay_amount(group, liqor, liqee, asset_mint, liab_mint);
    lemma_within_whole_over(amount, value, liab.1);
    if liqee.is_bankrupt->Some_0 {
        lemma_fee_within_fund(
            amount * liab.1,
            group.markets@[liab.0].insurance_fund as nat,
            group.liq_liqor_fee@,
        );
    } else {
        lemma_fee_within_fund(
            amount * liab.1,
            asset_position_value(group, liqee, asset_mint),
            both_fees(group),
        );
    }
}

/// The fees on a repaid value are exact and sum up to both fees on it.
proof fn lemma_liqee_debit(group: &CypherGroup, worth: nat)
    ensures
        liqee_debit_value(group, worth * scale()) == worth * both_fees(group),
        worth * group.liq_liqor_fee@ <= worth * both_fees(group),
        worth * group.liq_insurance_fee@ <= worth * both_fees(group),
{
    let l = group.liq_liqor_fee@;
    let i = group.liq_insurance_fee@;
    lemma_product_of_whole(worth, l);
    lemma_product_of_whole(worth, i);
    assert(worth * (l + i) == worth * l + worth * i) by (nonlinear_arith);
}

/// What a liquidation of collateral moves, where the rules give amounts for it.
fn calc_collateral_liquidation(
    group: &CypherGroup,
    liqor_user: &CypherUser,
    liqee_user: &CypherUser,
    asset_mint: &Pubkey,
    liab_mint: &Pubkey,
) -> (r: Option<CollateralAmounts>)
    ensures
        r is Some <==> collateral_defined(
            group,
            liqor_user,
            liqee_user,
            asset_mint@,
            liab_mint@,
        ),
        r is Some ==> amounts_are(
            r->Some_0,
            collateral_amounts(group, liqor_user, liqee_user, asset_mint@, liab_mint@),
        ),
{
    let (_, asset_price) = get_token_info(group, asset_mint)?;
    let (liab_token_idx, liab_price) = get_token_info(group, liab_mint)?;
    let max_repay_value = calc_repay_value_limit(group, liqee_user, liab_mint)?;

    let is_bankrupt: bool = liqee_user.is_bankrupt?;
    if is_bankrupt {
        if !asset_mint.same(&group.quote_mint) {
            return None;
        }
        if liab_mint.same(&group.quote_mint) {
            let max_repay_amount: u64 = max_repay_value.checked_whole()?;
            let repay_amount: u64 = if max_repay_amount <= group.insurance_fund {
                max_repay_amount
            } else {
                group.insurance_fund
            };
            return Some((repay_amount, 0, 0, 0, repay_amount));
        }
    }
    let max_value_for_swap = calc_swap_value_limit(group, liqee_user, asset_mint, liab_mint)?;
    let liqor_position = liqor_user.get_position(liab_token_idx)?;
    let liqor_repay_position_value = liqor_position.total_deposits.checked_times_u64(liab_price)?;
    let max_liab_swap_value = liqor_repay_position_value.lesser_of(max_value_for_swap);

    let max_value = max_repay_value.lesser_of(max_liab_swap_value);
    let repay_over = max_value.checked_over_u64(liab_price)?;
    let ghost amount = collateral_repay_amount(
        group,
        liqor_user,
        liqee_user,
        asset_mint@,
        liab_mint@,
    );
    proof {
        assert(amount * (liab_price as nat) <= u64::MAX ==> amount <= u64::MAX) by (nonlinear_arith)
            requires
                liab_price > 0,
        ;
    }
    let repay_amount: u64 = repay_over.checked_whole()?;
    let repay_worth: u64 = repay_amount.checked_mul(liab_price)?;
    if !is_bankrupt && asset_price == 0 {
        return None;
    }
    proof {
        lemma_collateral_within_funds(group, liqor_user, liqee_user, asset_mint@, liab_mint@);
    }
    let ghost worth = repay_worth as nat;
    let repay_value = Number::from_u64(repay_worth);
    if is_bankrupt {
        let ghost fund = group.markets@[liab_token_idx as int].insurance_fund as nat;
        proof {
            lemma_fee_fits(worth, group.liq_liqor_fee@, fund);
        }
        let market_insurance_debit: u64 = repay_value.times(group.liq_liqor_fee).as_u64();
        Some((repay_amount, 0, market_insurance_debit, 0, 0))
    } else {
        let ghost fund = asset_position_value(group, liqee_user, asset_mint@);
        let ghost position = whole(
            liqee_user.position(token_info(group, asset_mint@).0)->Some_0.total_deposits@,
        );
        proof {
            lemma_liqee_debit(group, worth);
            lemma_fee_fits(worth, group.liq_liqor_fee@, fund);
            lemma_fee_fits(worth, group.liq_insurance_fee@, fund);
            lemma_debit_within_position(
                liqee_debit_value(group, worth * scale()),
                position,
                asset_price as nat,
            );
        }
        let liqor_credit_value = repay_value.times(group.liq_liqor_fee);
        let global_insurance_credit_value = repay_value.times(group.liq_insurance_fee);
        let liqee_debit_value = liqor_credit_value.plus(global_insurance_credit_value);
        let liqee_asset_debit: u64 = liqee_debit_value.over_integer(
            [asset_price, 0, 0],
        ).as_u64_ceil();
        let global_insurance_credit: u64 = global_insurance_credit_value.as_u64();
        Some((repay_amount, liqee_asset_debit, 0, global_insurance_credit, 0))
    }
}

/// Whether five amounts are given ones.
pub open spec fn amounts_are(
    amounts: (u64, u64, u64, u64, u64),
    given: (nat, nat, nat, nat, nat),
) -> bool {
    &&& amounts.0 == given.0
    &&& amounts.1 == given.1
    &&& amounts.2 == given.2
    &&& amounts.3 == given.3
    &&& amounts.4 == given.4
}

/// The debt that has to go for the ratio of the minted amount to be the partial one again.
pub open spec fn excess_debt(group: &CypherGroup, market: CypherMarket, asset: CypherCAsset) -> nat {
    whole(
        excess_value(
            (asset.debt_shares * market.oracle_price->Some_0) as nat * scale(),
            asset.collateral as nat * scale(),
            market.mint_partial_ratio@,
            group,
        ) / (market.market_price as nat),
    )
}

/// The least collateral that pays both fees on one unit of the market.
pub open spec fn min_collateral(group: &CypherGroup, market: CypherMarket) -> nat {
    whole_ceil(both_fees(group) * market.market_price as nat)
}

/// Whether the collateral does not even pay the fees on one unit.
pub open spec fn is_market_bankrupt(
    group: &CypherGroup,
    market: CypherMarket,
    asset: CypherCAsset,
) -> bool {
    asset.collateral < min_collateral(group, market)
}

/// The fund that a liquidation of market collateral pays out of.
pub open spec fn market_fund(group: &CypherGroup, market: CypherMarket, asset: CypherCAsset) -> nat {
    if is_market_bankrupt(group, market, asset) {
        market.insurance_fund as nat
    } else {
        asset.collateral as nat
    }
}

/// The fees that the fund has to pay.
pub open spec fn market_fee(group: &CypherGroup, market: CypherMarket, asset: CypherCAsset) -> nat {
    if is_market_bankrupt(group, market, asset) {
        group.liq_liqor_fee@
    } else {
        both_fees(group)
    }
}

/// The value for which the fund pays the fees.
pub open spec fn market_swap_limit(
    group: &CypherGroup,
    market: CypherMarket,
    asset: CypherCAsset,
) -> nat {
    whole(quotient(market_fund(group, market, asset) * scale(), market_fee(group, market, asset)))
}

/// The amount that a liquidation of market collateral repays.
pub open spec fn market_repay_amount(
    group: &CypherGroup,
    market: CypherMarket,
    asset: CypherCAsset,
    liqor_balance: nat,
    vault_balance: nat,
) -> nat {
    lesser(
        lesser(excess_debt(group, market, asset), asset.debt_shares as nat),
        lesser(
            lesser(liqor_balance, vault_balance),
            market_swap_limit(group, market, asset) / (market.market_price as nat),
        ),
    )
}

/// What a liquidation of market collateral moves, from the state of the market.
pub open spec fn market_amounts_of(
    group: &CypherGroup,
    market: CypherMarket,
    asset: CypherCAsset,
    liqor_balance: nat,
    vault_balance: nat,
) -> (nat, nat, nat, nat, nat) {
    let amount = market_repay_amount(group, market, asset, liqor_balance, vault_balance);
    let value = amount * market.market_price as nat * scale();
    let liqor_credit = whole(product(value, group.liq_liqor_fee@));
    if is_market_bankrupt(group, market, asset) {
        (amount, liqor_credit, asset.collateral as nat, liqor_credit, 0)
    } else {
        let insurance_credit = whole(product(value, group.liq_insurance_fee@));
        (amount, liqor_credit, liqor_credit + insurance_credit, 0, insurance_credit)
    }
}

/// The balance of the liquidator in the token of a market.
pub open spec fn liqor_coin_balance(liqor: &CypherUser, market_idx: int) -> nat {
    whole(liqor.position(market_idx)->Some_0.total_deposits@)
}

/// The balance of a vault.
pub open spec fn vault_balance(vault: &UiTokenAmount) -> nat {
    unsigned_value(vault.amount@, u64::MAX as nat)->Some_0
}

/// What a liquidation of market collateral moves.
pub open spec fn market_amounts(
    group: &CypherGroup,
    liqor: &CypherUser,
    liqee: &CypherUser,
    vault: &UiTokenAmount,
    market_idx: int,
) -> (nat, nat, nat, nat, nat) {
    market_amounts_of(
        group,
        group.markets@[market_idx],
        liqee.c_asset(market_idx)->Some_0,
        liqor_coin_balance(liqor, market_idx),
        vault_balance(vault),
    )
}

/// Whether the excess debt and the limits of a market have values that fit.
pub open spec fn market_values_defined(
    group: &CypherGroup,
    market: CypherMarket,
    asset: CypherCAsset,
) -> bool {
    &&& market.oracle_price is Some
    &&& asset.debt_shares * market.oracle_price->Some_0 <= u64::MAX
    &&& excess_defined(
        (asset.debt_shares * market.oracle_price->Some_0) as nat * scale(),
        asset.collateral as nat * scale(),
        market.mint_partial_ratio@,
        group,
    )
    &&& market.market_price > 0
    &&& excess_debt(group, market, asset) <= u64::MAX
    &&& both_fees(group) * (market.market_price as nat) < capacity()
    &&& min_collateral(group, market) <= u64::MAX
    &&& market_fee(group, market, asset) > 0
    &&& market_swap_limit(group, market, asset) <= u64::MAX
}

/// Whether a liquidation of market collateral is one that the rules give amounts for: the
/// values are known, and every amount on the way fits.
pub open spec fn market_defined(
    group: &CypherGroup,
    liqor: &CypherUser,
    liqee: &CypherUser,
    vault: &UiTokenAmount,
    market_idx: int,
) -> bool {
    &&& 0 <= market_idx < group.markets@.len()
    &&& market_idx < group.tokens@.len()
    &&& liqor.position(market_idx) is Some
    &&& liqor_coin_balance(liqor, market_idx) <= u64::MAX
    &&& liqee.c_asset(market_idx) is Some
    &&& market_values_defined(
        group,
        group.markets@[market_idx],
        liqee.c_asset(market_idx)->Some_0,
    )
    &&& unsigned_value(vault.amount@, u64::MAX as nat) is Some
}

/// A repaid amount keeps the fees on it within the fund.
proof fn lemma_market_within_fund(
    group: &CypherGroup,
    market: CypherMarket,
    asset: CypherCAsset,
    amount: nat,
)
    requires
        market.market_price > 0,
        market_fee(group, market, asset) > 0,
        amount <= market_swap_limit(group, market, asset) / (market.market_price as nat),
    ensures
        amount * market.market_price <= market_swap_limit(group, market, asset),
        amount * market.market_price * market_fee(group, market, asset) <= market_fund(
            group,
            market,
            asset,
        ) * scale(),
{
    let price = market.market_price as nat;
    let limit = market_swap_limit(group, market, asset);
    let fund = market_fund(group, market, asset);
    let fee = market_fee(group, market, asset);
    vstd::arithmetic::div_mod::lemma_fundamental_div_mod(limit as int, price as int);
    assert(amount * price <= limit) by (nonlinear_arith)
        requires
            amount <= limit / price,
            limit as int == price * (limit / price) + limit as int % price as int,
            0 <= limit as int % price as int,
    ;
    let q = quotient(fund * scale(), fee);
    vstd::arithmetic::div_mod::lemma_fundamental_div_mod(q as int, scale() as int);
    assert(limit * scale() <= q);
    assert(amount * price * scale() <= limit * scale()) by (nonlinear_arith)
        requires
            amount * price <= limit,
    ;
    lemma_fee_within_fund(amount * price, fund, fee);
}

fn lesser_u64(a: u64, b: u64) -> (r: u64)
    ensures
        r == lesser(a as nat, b as nat),
{
    if a <= b {
        a
    } else {
        b
    }
}

/// The debt that has to go, where it fits.
fn calc_excess_debt(group: &CypherGroup, market: &CypherMarket, asset: &CypherCAsset) -> (r: Option<
    u64,
>)
    requires
        market.market_price > 0,
    ensures
        r is Some <==> {
            &&& market.oracle_price is Some
            &&& asset.debt_shares * market.oracle_price->Some_0 <= u64::MAX
            &&& excess_defined(
                (asset.debt_shares * market.oracle_price->Some_0) as nat * scale(),
                asset.collateral as nat * scale(),
                market.mint_partial_ratio@,
                group,
            )
            &&& excess_debt(group, *market, *asset) <= u64::MAX
        },
        r is Some ==> r->Some_0 == excess_debt(group, *market, *asset),
{
    let oracle_price: u64 = market.oracle_price?;
    let debt_value: u64 = asset.debt_shares.checked_mul(oracle_price)?;
    let excess_debt_value = calc_excess_value(
        Number::from_u64(debt_value),
        Number::from_u64(asset.collateral),
        market.mint_partial_ratio,
        group,
    )?;
    excess_debt_value.checked_over_u64(market.market_price)?.checked_whole()
}

/// What a liquidation of market collateral moves, where the rules give amounts for it.
fn calc_market_collateral_liquidation(
    group: &CypherGroup,
    liqor_user: &CypherUser,
    liqee_user: &CypherUser,
    vault: &UiTokenAmount,
    market_idx: usize,
) -> (r: Option<MarketAmounts>)
    ensures
        r is Some <==> market_defined(group, liqor_user, liqee_user, vault, market_idx as int),
        r is Some ==> amounts_are(
            r->Some_0,
            market_amounts(group, liqor_user, liqee_user, vault, market_idx as int),
        ),
{
    if market_idx >= group.markets.len() || market_idx >= group.tokens.len() {
        return None;
    }
    let market = group.get_cypher_market(market_idx);
    let market_price: u64 = market.market_price;
    if market_price == 0 {
        return None;
    }
    let liqor_position = liqor_user.get_position(market_idx)?;
    let liqor_coin_balance: u64 = liqor_position.total_deposits.checked_whole()?;
    let liqee_c_asset = liqee_user.get_c_asset(market_idx)?;
    let vault_amount: u64 = parse_u64(vault.amount.as_str())?;

    let excess_debt: u64 = calc_excess_debt(group, market, &liqee_c_asset)?;
    let max_repay_amount: u64 = lesser_u64(excess_debt, liqee_c_asset.debt_shares);

    let fees = group.liq_liqor_fee.checked_plus(group.liq_insurance_fee)?;
    let min_collateral_required: u64 = fees.checked_times_u64(market_price)?.checked_whole_ceil()?;
    let is_bankrupt: bool = liqee_c_asset.collateral < min_collateral_required;
    let max_pc_qty_for_swap: u64 = if is_bankrupt {
        Number::from_u64(market.insurance_fund).checked_over(group.liq_liqor_fee)?.checked_whole()?
    } else {
        Number::from_u64(liqee_c_asset.collateral).checked_over(fees)?.checked_whole()?
    };
    let max_coin_qty_for_swap: u64 = lesser_u64(
        lesser_u64(liqor_coin_balance, vault_amount),
        max_pc_qty_for_swap / market_price,
    );

    let repay_amount: u64 = lesser_u64(max_repay_amount, max_coin_qty_for_swap);
    let ghost worth = repay_amount as nat * market_price as nat;
    let ghost fund = market_fund(group, *market, liqee_c_asset);
    proof {
        lemma_market_within_fund(group, *market, liqee_c_asset, repay_amount as nat);
        if is_bankrupt {
            lemma_fee_fits(worth, group.liq_liqor_fee@, fund);
        } else {
            lemma_liqee_debit(group, worth);
            lemma_fee_fits(worth, group.liq_liqor_fee@, fund);
            lemma_fee_fits(worth, group.liq_insurance_fee@, fund);
            lemma_whole_sum(
                product(worth * scale(), group.liq_liqor_fee@),
                product(worth * scale(), group.liq_insurance_fee@),
                fund,
            );
        }
    }
    let repay_value = Number::from_u64(repay_amount * market_price);
    let liqor_pc_credit: u64 = repay_value.times(group.liq_liqor_fee).as_u64();
    if is_bankrupt {
        Some((repay_amount, liqor_pc_credit, liqee_c_asset.collateral, liqor_pc_credit, 0))
    } else {
        let global_insurance_credit: u64 = repay_value.times(group.liq_insurance_fee).as_u64();
        Some(
            (
                repay_amount,
                liqor_pc_credit,
                liqor_pc_credit + global_insurance_credit,
                0,
                global_insurance_credit,
            ),
        )
    }
}

/// The whole parts of two values whose sum is within a fund are together within it.
proof fn lemma_whole_sum(a: nat, b: nat, fund: nat)
    requires
        a + b <= fund * scale(),
    ensures
        whole(a) + whole(b) <= fund,
{
    vstd::arithmetic::div_mod::lemma_fundamental_div_mod(a as int, scale() as int);
    vstd::arithmetic::div_mod::lemma_fundamental_div_mod(b as int, scale() as int);
}

/// What a liquidation of collateral moves, or nothing where the rules give no amounts for it.
pub fn try_simulate_liquidate_collateral(
    cypher_group: &CypherGroup,
    cypher_liqor_user: &CypherUser,
    cypher_liqee_user: &CypherUser,
    asset_mint: &Pubkey,
    liab_mint: &Pubkey,
) -> (r: Option<CollateralAmounts>)
    ensures
        r is Some <==> collateral_defined(
            cypher_group,
            cypher_liqor_user,
            cypher_liqee_user,
            asset_mint@,
            liab_mint@,
        ),
        r is Some ==> amounts_are(
            r->Some_0,
            collateral_amounts(
                cypher_group,
                cypher_liqor_user,
                cypher_liqee_user,
                asset_mint@,
                liab_mint@,
            ),
        ),
{
    calc_collateral_liquidation(
        cypher_group,
        cypher_liqor_user,
        cypher_liqee_user,
        asset_mint,
        liab_mint,
    )
}

/// What a liquidation of collateral moves.
pub fn simulate_liquidate_collateral(
    cypher_group: &CypherGroup,
    cypher_liqor_user: &CypherUser,
    cypher_liqee_user: &CypherUser,
    asset_mint: &Pubkey,
    liab_mint: &Pubkey,
) -> (r: CollateralAmounts)
    requires
        collateral_defined(
            cypher_group,
            cypher_liqor_user,
            cypher_liqee_user,
            asset_mint@,
            liab_mint@,
        ),
    ensures
        amounts_are(
            r,
            collateral_amounts(
                cypher_group,
                cypher_liqor_user,
                cypher_liqee_user,
                asset_mint@,
                liab_mint@,
            ),
        ),
{
    calc_collateral_liquidation(
        cypher_group,
        cypher_liqor_user,
        cypher_liqee_user,
        asset_mint,
        liab_mint,
    ).unwrap()
}

/// What a liquidation of market collateral moves, or nothing where the rules give no amounts
/// for it.
pub fn try_simulate_liquidate_market_collateral(
    group: &CypherGroup,
    liqor_user: &CypherUser,
    liqee_user: &CypherUser,
    vault: &UiTokenAmount,
    market_idx: usize,
) -> (r: Option<MarketAmounts>)
    ensures
        r is Some <==> market_defined(group, liqor_user, liqee_user, vault, market_idx as int),
        r is Some ==> amounts_are(
            r->Some_0,
            market_amounts(group, liqor_user, liqee_user, vault, market_idx as int),
        ),
{
    calc_market_collateral_liquidation(group, liqor_user, liqee_user, vault, market_idx)
}

/// What a liquidation of market collateral moves.
pub fn simulate_liquidate_market_collateral(
    group: &CypherGroup,
    liqor_user: &CypherUser,
    liqee_user: &CypherUser,
    vault: &UiTokenAmount,
    market_idx: usize,
) -> (r: MarketAmounts)
    requires
        market_defined(group, liqor_user, liqee_user, vault, market_idx as int),
    ensures
        amounts_are(
            r,
            market_amounts(group, liqor_user, liqee_user, vault, market_idx as int),
        ),
{
    calc_market_collateral_liquidation(
        group,
        liqor_user,
        liqee_user,
        vault,
        market_idx,
    ).unwrap()
}

/// A liquidation of collateral repays no more than what is needed for the initial margin
/// ratio, than the liquidated user owes, and, unless the group's insurance fund pays, than the
/// liquidator has deposited.
pub proof fn law_collateral_repays_within_limits(
    group: &CypherGroup,
    liqor: &CypherUser,
    liqee: &CypherUser,
    asset_mint: Seq<u8>,
    liab_mint: Seq<u8>,
)
    requires
        collateral_defined(group, liqor, liqee, asset_mint, liab_mint),
    ensures
        ({
            let amounts = collateral_amounts(group, liqor, liqee, asset_mint, liab_mint);
            let liab = token_info(group, liab_mint);
            &&& amounts.0 * liab.1 * scale() <= excess_value(
                liqee.liabs_value->Some_0@,
                liqee.assets_value->Some_0@,
                group.margin_init_ratio@,
                group,
            )
            &&& amounts.0 <= whole(liqee.position(liab.0)->Some_0.total_borrows@)
            &&& !is_quote_bankruptcy(group, liqee, liab_mint) ==> amounts.0 <= whole(
                liqor.position(liab.0)->Some_0.total_deposits@,
            )
        }),
{
    let amounts = collateral_amounts(group, liqor, liqee, asset_mint, liab_mint);
    let liab = token_info(group, liab_mint);
    let borrows = liqee.position(liab.0)->Some_0.total_borrows@;
    if is_quote_bankruptcy(group, liqee, liab_mint) {
        let limit = repay_value_limit(group, liqee, liab_mint);
        vstd::arithmetic::div_mod::lemma_fundamental_div_mod(limit as int, scale() as int);
        assert(amounts.0 * liab.1 == amounts.0) by (nonlinear_arith)
            requires
                liab.1 == 1,
        ;
        assert(borrows * liab.1 == borrows) by (nonlinear_arith)
            requires
                liab.1 == 1,
        ;
        lemma_within_balance(amounts.0, 1, borrows);
    } else {
        lemma_collateral_within_funds(group, liqor, liqee, asset_mint, liab_mint);
        lemma_within_balance(amounts.0, liab.1, borrows);
        lemma_within_balance(
            amounts.0,
            liab.1,
            liqor.position(liab.0)->Some_0.total_deposits@,
        );
    }
}

/// A solvent user pays out of the asset position and no insurance fund pays: the debit is no
/// more than the position holds, and the group's insurance fund receives its fee rounded down.
pub proof fn law_solvent_collateral_pays_itself(
    group: &CypherGroup,
    liqor: &CypherUser,
    liqee: &CypherUser,
    asset_mint: Seq<u8>,
    liab_mint: Seq<u8>,
)
    requires
        collateral_defined(group, liqor, liqee, asset_mint, liab_mint),
        !liqee.is_bankrupt->Some_0,
    ensures
        ({
            let amounts = collateral_amounts(group, liqor, liqee, asset_mint, liab_mint);
            let asset = token_info(group, asset_mint);
            let worth = amounts.0 * token_info(group, liab_mint).1;
            &&& amounts.1 <= whole(liqee.position(asset.0)->Some_0.total_deposits@)
            &&& amounts.2 == 0
            &&& amounts.3 == worth * group.liq_insurance_fee@ / scale()
            &&& amounts.4 == 0
        }),
{
    let amount = collateral_repay_amount(group, liqor, liqee, asset_mint, liab_mint);
    let worth = amount * token_info(group, liab_mint).1;
    let asset = token_info(group, asset_mint);
    let position = whole(liqee.position(asset.0)->Some_0.total_deposits@);
    lemma_collateral_within_funds(group, liqor, liqee, asset_mint, liab_mint);
    lemma_liqee_debit(group, worth);
    lemma_product_of_whole(worth, group.liq_insurance_fee@);
    lemma_debit_within_position(liqee_debit_value(group, worth * scale()), position, asset.1);
}

/// A bankrupt user pays nothing: the insurance fund of the market pays for a liability other
/// than the quote token, the insurance fund of the group for the quote token, and neither pays
/// more than it holds.
pub proof fn law_bankrupt_collateral_is_insured(
    group: &CypherGroup,
    liqor: &CypherUser,
    liqee: &CypherUser,
    asset_mint: Seq<u8>,
    liab_mint: Seq<u8>,
)
    requires
        collateral_defined(group, liqor, liqee, asset_mint, liab_mint),
        liqee.is_bankrupt->Some_0,
    ensures
        ({
            let amounts = collateral_amounts(group, liqor, liqee, asset_mint, liab_mint);
            &&& amounts.1 == 0
            &&& amounts.3 == 0
            &&& if liab_mint == group.quote_mint@ {
                amounts.2 == 0 && amounts.4 == amounts.0 && amounts.4 <= group.insurance_fund
            } else {
                amounts.4 == 0 && amounts.2 <= group.markets@[token_info(
                    group,
                    liab_mint,
                ).0].insurance_fund
            }
        }),
{
    if liab_mint != group.quote_mint@ {
        let amount = collateral_repay_amount(group, liqor, liqee, asset_mint, liab_mint);
        let liab = token_info(group, liab_mint);
        lemma_collateral_within_funds(group, liqor, liqee, asset_mint, liab_mint);
        lemma_fee_fits(
            amount * liab.1,
            group.liq_liqor_fee@,
            group.markets@[liab.0].insurance_fund as nat,
        );
    }
}

/// Whether a liquidation of collateral may repay an amount: no more than what is needed for the
/// initial margin ratio and than the user owes; and out of the group's insurance fund no more
/// than it holds, otherwise no more than the liquidator has deposited and than the asset
/// position, or for a bankrupt user the market's insurance fund, pays the fees of.
pub open spec fn collateral_payable(
    group: &CypherGroup,
    liqor: &CypherUser,
    liqee: &CypherUser,
    asset_mint: Seq<u8>,
    liab_mint: Seq<u8>,
    n: nat,
) -> bool {
    let liab = token_info(group, liab_mint);
    &&& n * liab.1 * scale() <= excess_value(
        liqee.liabs_value->Some_0@,
        liqee.assets_value->Some_0@,
        group.margin_init_ratio@,
        group,
    )
    &&& n <= whole(liqee.position(liab.0)->Some_0.total_borrows@)
    &&& if is_quote_bankruptcy(group, liqee, liab_mint) {
        n <= group.insurance_fund
    } else {
        &&& n <= whole(liqor.position(liab.0)->Some_0.total_deposits@)
        &&& if liqee.is_bankrupt->Some_0 {
            n * liab.1 * group.liq_liqor_fee@ <= group.markets@[liab.0].insurance_fund * scale()
        } else {
            n * liab.1 * both_fees(group) <= asset_position_value(group, liqee, asset_mint)
                * scale()
        }
    }
}

/// A liquidation of collateral repays the greatest amount that it may repay.
pub proof fn law_collateral_repays_all_it_may(
    group: &CypherGroup,
    liqor: &CypherUser,
    liqee: &CypherUser,
    asset_mint: Seq<u8>,
    liab_mint: Seq<u8>,
    n: nat,
)
    requires
        collateral_defined(group, liqor, liqee, asset_mint, liab_mint),
    ensures
        collateral_payable(group, liqor, liqee, asset_mint, liab_mint, n) <==> n
            <= collateral_amounts(group, liqor, liqee, asset_mint, liab_mint).0,
{
    let liab = token_info(group, liab_mint);
    let worth = n * liab.1;
    let borrows = liqee.position(liab.0)->Some_0.total_borrows@;
    lemma_within_balance(n, liab.1, borrows);
    if is_quote_bankruptcy(group, liqee, liab_mint) {
        let limit = repay_value_limit(group, liqee, liab_mint);
        lemma_product_fits(n, scale(), limit);
        assert(n * liab.1 == n) by (nonlinear_arith)
            requires
                liab.1 == 1,
        ;
    } else {
        let deposits = liqor.position(liab.0)->Some_0.total_deposits@;
        let value = lesser(
            repay_value_limit(group, liqee, liab_mint),
            lesser(
                deposits_value(liqor, liab),
                swap_value_limit(group, liqee, asset_mint, liab_mint),
            ),
        );
        lemma_within_whole_over(n, value, liab.1);
        lemma_within_balance(n, liab.1, deposits);
        if liqee.is_bankrupt->Some_0 {
            lemma_fee_within_fund(
                worth,
                group.markets@[liab.0].insurance_fund as nat,
                group.liq_liqor_fee@,
            );
        } else {
            lemma_fee_within_fund(
                worth,
                asset_position_value(group, liqee, asset_mint),
                both_fees(group),
            );
        }
    }
}

/// A liquidation of market collateral repays no more than the debt, than the excess debt, and
/// than the liquidator and the vault hold.
pub proof fn law_market_repays_within_limits(
    group: &CypherGroup,
    liqor: &CypherUser,
    liqee: &CypherUser,
    vault: &UiTokenAmount,
    market_idx: int,
)
    requires
        market_defined(group, liqor, liqee, vault, market_idx),
    ensures
        ({
            let amounts = market_amounts(group, liqor, liqee, vault, market_idx);
            let asset = liqee.c_asset(market_idx)->Some_0;
            &&& amounts.0 <= asset.debt_shares
            &&& amounts.0 <= excess_debt(group, group.markets@[market_idx], asset)
            &&& amounts.0 <= liqor_coin_balance(liqor, market_idx)
            &&& amounts.0 <= vault_balance(vault)
        }),
{
}

/// Whether a liquidation of market collateral may repay an amount: no more than the debt, than
/// the excess debt, than the liquidator and the vault hold, and than the fund pays the fees of.
pub open spec fn market_payable(
    group: &CypherGroup,
    liqor: &CypherUser,
    liqee: &CypherUser,
    vault: &UiTokenAmount,
    market_idx: int,
    n: nat,
) -> bool {
    let market = group.markets@[market_idx];
    let asset = liqee.c_asset(market_idx)->Some_0;
    &&& n <= asset.debt_shares
    &&& n <= excess_debt(group, market, asset)
    &&& n <= liqor_coin_balance(liqor, market_idx)
    &&& n <= vault_balance(vault)
    &&& n * (market.market_price as nat) * market_fee(group, market, asset) <= market_fund(
        group,
        market,
        asset,
    ) * scale()
}

/// A liquidation of market collateral repays the greatest amount that it may repay.
pub proof fn law_market_repays_all_it_may(
    group: &CypherGroup,
    liqor: &CypherUser,
    liqee: &CypherUser,
    vault: &UiTokenAmount,
    market_idx: int,
    n: nat,
)
    requires
        market_defined(group, liqor, liqee, vault, market_idx),
    ensures
        market_payable(group, liqor, liqee, vault, market_idx, n) <==> n <= market_amounts(
            group,
            liqor,
            liqee,
            vault,
            market_idx,
        ).0,
{
    let market = group.markets@[market_idx];
    let asset = liqee.c_asset(market_idx)->Some_0;
    let price = market.market_price as nat;
    let fund = market_fund(group, market, asset);
    let fee = market_fee(group, market, asset);
    lemma_product_fits(n, price, market_swap_limit(group, market, asset));
    lemma_product_fits(n * price, scale(), quotient(fund * scale(), fee));
    lemma_fee_within_fund(n * price, fund, fee);
}

/// What is received equals what is paid: a solvent user pays the liquidator and the group's
/// insurance fund out of the collateral; for a bankrupt one, who loses the collateral, the
/// market's insurance fund pays the liquidator and no more than it holds.
pub proof fn law_market_conserves(
    group: &CypherGroup,
    liqor: &CypherUser,
    liqee: &CypherUser,
    vault: &UiTokenAmount,
    market_idx: int,
)
    requires
        market_defined(group, liqor, liqee, vault, market_idx),
    ensures
        ({
            let amounts = market_amounts(group, liqor, liqee, vault, market_idx);
            let market = group.markets@[market_idx];
            let asset = liqee.c_asset(market_idx)->Some_0;
            if is_market_bankrupt(group, market, asset) {
                &&& amounts.2 == asset.collateral
                &&& amounts.3 == amounts.1
                &&& amounts.3 <= market.insurance_fund
                &&& amounts.4 == 0
            } else {
                &&& amounts.2 == amounts.1 + amounts.4
                &&& amounts.2 <= asset.collateral
                &&& amounts.3 == 0
            }
        }),
{
    let market = group.markets@[market_idx];
    let asset = liqee.c_asset(market_idx)->Some_0;
    let amount = market_amounts(group, liqor, liqee, vault, market_idx).0;
    let worth = amount * market.market_price as nat;
    let fund = market_fund(group, market, asset);
    lemma_market_within_fund(group, market, asset, amount);
    if is_market_bankrupt(group, market, asset) {
        lemma_fee_fits(worth, group.liq_liqor_fee@, fund);
    } else {
        lemma_liqee_debit(group, worth);
        lemma_whole_sum(
            product(worth * scale(), group.liq_liqor_fee@),
            product(worth * scale(), group.liq_insurance_fee@),
            fund,
        );
    }
}

/// What is lacking for a margin ratio, and what repaying one unit of value makes up of it: an
/// amount at a price is within the excess value exactly where it makes up no more than is lacking.
proof fn lemma_within_excess(
    worth: nat,
    liabs: nat,
    assets: nat,
    ratio: nat,
    group: &CypherGroup,
)
    requires
        assets <= product(liabs, ratio),
        margin_over_fees(ratio, group) > 0,
    ensures
        worth * scale() <= excess_value(liabs, assets, ratio, group) <==> worth
            * margin_over_fees(ratio, group) <= product(liabs, ratio) - assets,
{
    let s = scale();
    let lack = (product(liabs, ratio) - assets) as nat;
    let margin = margin_over_fees(ratio, group) as nat;
    lemma_product_fits(worth * s, margin, lack * s);
    assert(worth * s * margin == (worth * margin) * s) by (nonlinear_arith);
    assert((worth * margin) * s <= lack * s <==> worth * margin <= lack) by (nonlinear_arith)
        requires
            s > 0,
    ;
}

/// What a liquidation of collateral moves, over the accounts themselves. Each mint is priced by
/// the market of its own token, and the quote token at one. The amount repaid is the greatest
/// that makes up no more than what is lacking for the initial margin ratio, that the user owes,
/// and that can be paid for: by the group's insurance fund for a bankrupt user who owes the quote
/// token, otherwise by what the liquidator has deposited and, with the fees, by the deposits of
/// the user or, where the user is bankrupt, by the insurance fund of the market of the liability.
/// A solvent user pays both fees on what is repaid, rounded up to whole units of the asset, and
/// the group's insurance fund receives its fee rounded down.
pub proof fn law_collateral_amounts(
    group: &CypherGroup,
    liqor: &CypherUser,
    liqee: &CypherUser,
    asset_mint: Seq<u8>,
    liab_mint: Seq<u8>,
    asset_idx: int,
    liab_idx: int,
    n: nat,
)
    requires
        collateral_defined(group, liqor, liqee, asset_mint, liab_mint),
        if asset_mint == group.quote_mint@ {
            asset_idx == group.quote_token_idx
        } else {
            &&& 0 <= asset_idx < group.tokens@.len()
            &&& group.tokens@[asset_idx].mint@ == asset_mint
            &&& forall|j: int| 0 <= j < asset_idx ==> (#[trigger] group.tokens@[j]).mint@ != asset_mint
        },
        if liab_mint == group.quote_mint@ {
            liab_idx == group.quote_token_idx
        } else {
            &&& 0 <= liab_idx < group.tokens@.len()
            &&& group.tokens@[liab_idx].mint@ == liab_mint
            &&& forall|j: int| 0 <= j < liab_idx ==> (#[trigger] group.tokens@[j]).mint@ != liab_mint
        },
    ensures
        ({
            let amounts = collateral_amounts(group, liqor, liqee, asset_mint, liab_mint);
            let asset_price: nat = if asset_mint == group.quote_mint@ {
                1
            } else {
                group.markets@[asset_idx].market_price as nat
            };
            let liab_price: nat = if liab_mint == group.quote_mint@ {
                1
            } else {
                group.markets@[liab_idx].market_price as nat
            };
            let ratio = group.margin_init_ratio@;
            let liqor_fee = group.liq_liqor_fee@;
            let insurance_fee = group.liq_insurance_fee@;
            let bankrupt = liqee.is_bankrupt->Some_0;
            let worth = amounts.0 * liab_price;
            &&& n <= amounts.0 <==> {
                &&& n * liab_price * (ratio - liqor_fee - insurance_fee)
                    <= liqee.liabs_value->Some_0@ * ratio / scale() - liqee.assets_value->Some_0@
                &&& n * scale() <= liqee.positions@[liab_idx]->Some_0.total_borrows@
                &&& if bankrupt && liab_mint == group.quote_mint@ {
                    n <= group.insurance_fund
                } else {
                    &&& n * scale() <= liqor.positions@[liab_idx]->Some_0.total_deposits@
                    &&& if bankrupt {
                        n * liab_price * liqor_fee <= group.markets@[liab_idx].insurance_fund
                            * scale()
                    } else {
                        n * liab_price * (liqor_fee + insurance_fee)
                            <= liqee.positions@[asset_idx]->Some_0.total_deposits@ / scale()
                            * asset_price * scale()
                    }
                }
            }
            &&& if bankrupt && liab_mint == group.quote_mint@ {
                amounts.1 == 0 && amounts.2 == 0 && amounts.3 == 0 && amounts.4 == amounts.0
            } else if bankrupt {
                &&& amounts.1 == 0 && amounts.3 == 0 && amounts.4 == 0
                &&& amounts.2 * scale() <= worth * liqor_fee < (amounts.2 + 1) * scale()
            } else {
                let debit = worth * (liqor_fee + insurance_fee) / asset_price;
                &&& amounts.2 == 0 && amounts.4 == 0
                &&& debit <= amounts.1 * scale() < debit + scale()
                &&& amounts.3 * scale() <= worth * insurance_fee < (amounts.3 + 1) * scale()
            }
        }),
{
    law_token_idx_is_first(group, asset_mint, asset_idx);
    law_token_idx_is_first(group, liab_mint, liab_idx);
    law_collateral_repays_all_it_may(group, liqor, liqee, asset_mint, liab_mint, n);
    let amounts = collateral_amounts(group, liqor, liqee, asset_mint, liab_mint);
    let liab = token_info(group, liab_mint);
    let asset = token_info(group, asset_mint);
    let worth = amounts.0 * liab.1;
    lemma_within_excess(
        n * liab.1,
        liqee.liabs_value->Some_0@,
        liqee.assets_value->Some_0@,
        group.margin_init_ratio@,
        group,
    );
    lemma_product_fits(n, scale(), liqee.position(liab.0)->Some_0.total_borrows@);
    if !is_quote_bankruptcy(group, liqee, liab_mint) {
        lemma_product_fits(n, scale(), liqor.position(liab.0)->Some_0.total_deposits@);
        lemma_product_of_whole(worth, group.liq_liqor_fee@);
        lemma_product_of_whole(worth, group.liq_insurance_fee@);
        lemma_liqee_debit(group, worth);
        lemma_whole_bounds(worth * group.liq_liqor_fee@);
        lemma_whole_bounds(worth * group.liq_insurance_fee@);
        if !liqee.is_bankrupt->Some_0 {
            lemma_whole_bounds(worth * both_fees(group) / asset.1);
        }
    }
}

/// The whole part of a value and the value rounded up are less than one away from it.
proof fn lemma_whole_bounds(value: nat)
    ensures
        whole(value) * scale() <= value < (whole(value) + 1) * scale(),
        value <= whole_ceil(value) * scale() < value + scale(),
{
}

/// When a liquidation of collateral has amounts, over the accounts themselves: where the values,
/// positions and markets that it needs are there, a bankrupt user pays in the quote token, no
/// price or fee that it divides by is zero, the assets of the user do not exceed what the initial
/// margin ratio asks for, and every amount on the way fits.
pub proof fn law_collateral_has_amounts(
    group: &CypherGroup,
    liqor: &CypherUser,
    liqee: &CypherUser,
    asset_mint: Seq<u8>,
    liab_mint: Seq<u8>,
    asset_idx: int,
    liab_idx: int,
)
    requires
        if asset_mint == group.quote_mint@ {
            asset_idx == group.quote_token_idx
        } else {
            &&& 0 <= asset_idx < group.tokens@.len()
            &&& group.tokens@[asset_idx].mint@ == asset_mint
            &&& forall|j: int| 0 <= j < asset_idx ==> (#[trigger] group.tokens@[j]).mint@ != asset_mint
        },
        if liab_mint == group.quote_mint@ {
            liab_idx == group.quote_token_idx
        } else {
            &&& 0 <= liab_idx < group.tokens@.len()
            &&& group.tokens@[liab_idx].mint@ == liab_mint
            &&& forall|j: int| 0 <= j < liab_idx ==> (#[trigger] group.tokens@[j]).mint@ != liab_mint
        },
    ensures
        ({
            let asset_price: nat = if asset_mint == group.quote_mint@ {
                1
            } else {
                group.markets@[asset_idx].market_price as nat
            };
            let liab_price: nat = if liab_mint == group.quote_mint@ {
                1
            } else {
                group.markets@[liab_idx].market_price as nat
            };
            let ratio = group.margin_init_ratio@;
            let liqor_fee = group.liq_liqor_fee@;
            let insurance_fee = group.liq_insurance_fee@;
            let bankrupt = liqee.is_bankrupt->Some_0;
            let needed = liqee.liabs_value->Some_0@ * ratio / scale();
            let lack = needed - liqee.assets_value->Some_0@;
            collateral_defined(group, liqor, liqee, asset_mint, liab_mint) <==> {
                &&& asset_mint != group.quote_mint@ ==> asset_idx < group.markets@.len()
                &&& liab_mint != group.quote_mint@ ==> liab_idx < group.markets@.len()
                &&& liqee.assets_value is Some && liqee.liabs_value is Some
                    && liqee.is_bankrupt is Some
                &&& liqee.liabs_value->Some_0@ * ratio < capacity()
                &&& liqee.assets_value->Some_0@ <= needed
                &&& liqor_fee + insurance_fee < ratio
                &&& lack * scale() < capacity()
                &&& liab_idx < group.tokens@.len() && liab_idx < liqee.positions@.len()
                &&& liqee.positions@[liab_idx] is Some
                &&& liqee.positions@[liab_idx]->Some_0.total_borrows@ * liab_price < capacity()
                &&& bankrupt ==> asset_mint == group.quote_mint@
                &&& if bankrupt && liab_mint == group.quote_mint@ {
                    lack < 0x1_0000_0000_0000_0000 * (ratio - liqor_fee - insurance_fee)
                        || liqee.positions@[liab_idx]->Some_0.total_borrows@
                        < 0x1_0000_0000_0000_0000 * scale()
                } else {
                    &&& liab_idx < liqor.positions@.len() && liqor.positions@[liab_idx] is Some
                    &&& liqor.positions@[liab_idx]->Some_0.total_deposits@ * liab_price
                        < capacity()
                    &&& liab_price > 0
                    &&& collateral_amounts(group, liqor, liqee, asset_mint, liab_mint).0
                        * liab_price < 0x1_0000_0000_0000_0000
                    &&& if bankrupt {
                        liqor_fee > 0
                    } else {
                        &&& asset_idx < group.tokens@.len() && asset_idx
                            < liqee.positions@.len()
                        &&& liqee.positions@[asset_idx] is Some
                        &&& liqee.positions@[asset_idx]->Some_0.total_deposits@
                            < 0x1_0000_0000_0000_0000 * scale()
                        &&& liqee.positions@[asset_idx]->Some_0.total_deposits@ / scale()
                            * asset_price < 0x1_0000_0000_0000_0000
                        &&& liqor_fee + insurance_fee > 0
                        &&& asset_price > 0
                    }
                }
            }
        }),
{
    law_token_idx_is_first(group, asset_mint, asset_idx);
    law_token_idx_is_first(group, liab_mint, liab_idx);
    let liabs = liqee.liabs_value->Some_0@;
    let assets = liqee.assets_value->Some_0@;
    let ratio = group.margin_init_ratio@;
    let max = 0x1_0000_0000_0000_0000nat;
    if assets <= product(liabs, ratio) && margin_over_fees(ratio, group) > 0 {
        lemma_within_excess(max, liabs, assets, ratio, group);
        let e = excess_value(liabs, assets, ratio, group);
        lemma_product_fits(max, scale(), e);
        if is_quote_bankruptcy(group, liqee, liab_mint) {
            let borrows = liqee.position(liab_idx)->Some_0.total_borrows@;
            lemma_product_fits(max, scale(), borrows);
            lemma_product_fits(max, scale(), repay_value_limit(group, liqee, liab_mint));
            let price = token_info(group, liab_mint).1;
            assert(borrows * price == borrows) by (nonlinear_arith)
                requires
                    price == 1,
            ;
        }
    }
    lemma_product_fits(max, scale(), liqee.position(asset_idx)->Some_0.total_deposits@);
}

/// The prices of markets other than those of the two mints do not matter: with other such
/// prices a liquidation of collateral moves the same amounts.
pub proof fn law_other_prices_do_not_matter(
    group: &CypherGroup,
    other: &CypherGroup,
    liqor: &CypherUser,
    liqee: &CypherUser,
    asset_mint: Seq<u8>,
    liab_mint: Seq<u8>,
    asset_idx: int,
    liab_idx: int,
)
    requires
        collateral_defined(group, liqor, liqee, asset_mint, liab_mint),
        if asset_mint == group.quote_mint@ {
            asset_idx == group.quote_token_idx
        } else {
            &&& 0 <= asset_idx < group.tokens@.len()
            &&& group.tokens@[asset_idx].mint@ == asset_mint
            &&& forall|j: int| 0 <= j < asset_idx ==> (#[trigger] group.tokens@[j]).mint@ != asset_mint
        },
        if liab_mint == group.quote_mint@ {
            liab_idx == group.quote_token_idx
        } else {
            &&& 0 <= liab_idx < group.tokens@.len()
            &&& group.tokens@[liab_idx].mint@ == liab_mint
            &&& forall|j: int| 0 <= j < liab_idx ==> (#[trigger] group.tokens@[j]).mint@ != liab_mint
        },
        other.quote_mint == group.quote_mint,
        other.quote_token_idx == group.quote_token_idx,
        other.margin_init_ratio == group.margin_init_ratio,
        other.liq_liqor_fee == group.liq_liqor_fee,
        other.liq_insurance_fee == group.liq_insurance_fee,
        other.insurance_fund == group.insurance_fund,
        other.tokens@ == group.tokens@,
        other.markets@.len() == group.markets@.len(),
        asset_mint != group.quote_mint@ ==> other.markets@[asset_idx] == group.markets@[asset_idx],
        liab_mint != group.quote_mint@ ==> other.markets@[liab_idx] == group.markets@[liab_idx],
    ensures
        collateral_defined(other, liqor, liqee, asset_mint, liab_mint),
        collateral_amounts(other, liqor, liqee, asset_mint, liab_mint) == collateral_amounts(
            group,
            liqor,
            liqee,
            asset_mint,
            liab_mint,
        ),
{
    law_token_idx_is_first(group, asset_mint, asset_idx);
    law_token_idx_is_first(group, liab_mint, liab_idx);
    law_token_idx_is_first(other, asset_mint, asset_idx);
    law_token_idx_is_first(other, liab_mint, liab_idx);
}

/// What a liquidation of market collateral moves, over the accounts themselves. The user is
/// bankrupt where the collateral does not pay both fees on one unit at the market price. The
/// amount repaid is the greatest that makes up, at the market price, no more than what the
/// collateral lacks of the partial ratio of the debt at the oracle price, that is owed, that the
/// liquidator and the vault hold, and of which the collateral pays both fees or, for a bankrupt
/// user, the market's insurance fund pays the liquidator's. The liquidator and the group's
/// insurance fund receive their fees rounded down; a solvent user pays both, a bankrupt one loses
/// the collateral while the market's insurance fund pays the liquidator.
pub proof fn law_market_amounts(
    group: &CypherGroup,
    liqor: &CypherUser,
    liqee: &CypherUser,
    vault: &UiTokenAmount,
    market_idx: int,
    n: nat,
)
    requires
        market_defined(group, liqor, liqee, vault, market_idx),
    ensures
        ({
            let amounts = market_amounts(group, liqor, liqee, vault, market_idx);
            let market = group.markets@[market_idx];
            let asset = liqee.c_assets@[market_idx]->Some_0;
            let price = market.market_price as nat;
            let ratio = market.mint_partial_ratio@;
            let liqor_fee = group.liq_liqor_fee@;
            let insurance_fee = group.liq_insurance_fee@;
            let bankrupt = asset.collateral * scale() < (liqor_fee + insurance_fee) * price;
            let worth = amounts.0 * price;
            &&& n <= amounts.0 <==> {
                &&& n * price * (ratio - liqor_fee - insurance_fee) <= asset.debt_shares
                    * market.oracle_price->Some_0 * ratio - asset.collateral * scale()
                &&& n <= asset.debt_shares
                &&& n * scale() <= liqor.positions@[market_idx]->Some_0.total_deposits@
                &&& n <= unsigned_value(vault.amount@, u64::MAX as nat)->Some_0
                &&& if bankrupt {
                    n * price * liqor_fee <= market.insurance_fund * scale()
                } else {
                    n * price * (liqor_fee + insurance_fee) <= asset.collateral * scale()
                }
            }
            &&& amounts.1 * scale() <= worth * liqor_fee < (amounts.1 + 1) * scale()
            &&& if bankrupt {
                amounts.2 == asset.collateral && amounts.3 == amounts.1 && amounts.4 == 0
            } else {
                &&& amounts.2 == amounts.1 + amounts.4 && amounts.3 == 0
                &&& amounts.4 * scale() <= worth * insurance_fee < (amounts.4 + 1) * scale()
            }
        }),
{
    law_market_repays_all_it_may(group, liqor, liqee, vault, market_idx, n);
    let amounts = market_amounts(group, liqor, liqee, vault, market_idx);
    let market = group.markets@[market_idx];
    let asset = liqee.c_asset(market_idx)->Some_0;
    let price = market.market_price as nat;
    let worth = amounts.0 * price;
    let debt = (asset.debt_shares * market.oracle_price->Some_0) as nat;
    lemma_excess_debt(group, market, asset, n);
    lemma_product_of_whole(debt, market.mint_partial_ratio@);
    lemma_product_fits(n, scale(), liqor.position(market_idx)->Some_0.total_deposits@);
    lemma_market_bankrupt(group, market, asset);
    lemma_product_of_whole(worth, group.liq_liqor_fee@);
    lemma_product_of_whole(worth, group.liq_insurance_fee@);
    lemma_whole_bounds(worth * group.liq_liqor_fee@);
    lemma_whole_bounds(worth * group.liq_insurance_fee@);
}

/// A number is within the excess debt exactly where, at the market price, it makes up no more
/// than the collateral lacks.
proof fn lemma_excess_debt(
    group: &CypherGroup,
    market: CypherMarket,
    asset: CypherCAsset,
    n: nat,
)
    requires
        market.market_price > 0,
        excess_defined(
            (asset.debt_shares * market.oracle_price->Some_0) as nat * scale(),
            asset.collateral as nat * scale(),
            market.mint_partial_ratio@,
            group,
        ),
    ensures
        n <= excess_debt(group, market, asset) <==> n * (market.market_price as nat)
            * margin_over_fees(market.mint_partial_ratio@, group) <= asset.debt_shares
            * market.oracle_price->Some_0 * market.mint_partial_ratio@ - asset.collateral
            * scale(),
{
    let price = market.market_price as nat;
    let debt = (asset.debt_shares * market.oracle_price->Some_0) as nat;
    let ratio = market.mint_partial_ratio@;
    let collateral = asset.collateral as nat * scale();
    lemma_product_of_whole(debt, ratio);
    lemma_within_whole_over(
        n,
        excess_value(debt * scale(), collateral, ratio, group),
        price,
    );
    lemma_within_excess(n * price, debt * scale(), collateral, ratio, group);
}

/// The collateral does not pay the fees on one unit exactly where it is less than they are.
proof fn lemma_market_bankrupt(group: &CypherGroup, market: CypherMarket, asset: CypherCAsset)
    ensures
        is_market_bankrupt(group, market, asset) <==> asset.collateral * scale() < both_fees(group)
            * (market.market_price as nat),
{
    lemma_whole_bounds(both_fees(group) * (market.market_price as nat));
}

/// When a liquidation of market collateral has amounts, over the accounts themselves: where the
/// market, token, position, asset, oracle price and vault balance are there, the debt exceeds
/// what the collateral covers, no price or fee that it divides by is zero, and every amount on
/// the way fits.
pub proof fn law_market_has_amounts(
    group: &CypherGroup,
    liqor: &CypherUser,
    liqee: &CypherUser,
    vault: &UiTokenAmount,
    market_idx: int,
)
    ensures
        ({
            let market = group.markets@[market_idx];
            let asset = liqee.c_assets@[market_idx]->Some_0;
            let price = market.market_price as nat;
            let ratio = market.mint_partial_ratio@;
            let liqor_fee = group.liq_liqor_fee@;
            let insurance_fee = group.liq_insurance_fee@;
            let debt = asset.debt_shares * market.oracle_price->Some_0;
            let lack = debt * ratio - asset.collateral * scale();
            let max = 0x1_0000_0000_0000_0000nat;
            market_defined(group, liqor, liqee, vault, market_idx) <==> {
                &&& 0 <= market_idx < group.markets@.len() && market_idx < group.tokens@.len()
                &&& market_idx < liqor.positions@.len() && liqor.positions@[market_idx] is Some
                &&& liqor.positions@[market_idx]->Some_0.total_deposits@ < max * scale()
                &&& market_idx < liqee.c_assets@.len() && liqee.c_assets@[market_idx] is Some
                &&& market.oracle_price is Some
                &&& debt < max
                &&& debt * scale() * ratio < capacity()
                &&& 0 <= lack && lack * scale() < capacity()
                &&& liqor_fee + insurance_fee < ratio
                &&& price > 0
                &&& lack < max * price * (ratio - liqor_fee - insurance_fee)
                &&& (liqor_fee + insurance_fee) * price < capacity()
                &&& (liqor_fee + insurance_fee) * price <= u64::MAX * scale()
                &&& if asset.collateral * scale() < (liqor_fee + insurance_fee) * price {
                    liqor_fee > 0 && market.insurance_fund * scale() < max * liqor_fee
                } else {
                    liqor_fee + insurance_fee > 0 && asset.collateral * scale() < max * (liqor_fee
                        + insurance_fee)
                }
                &&& unsigned_value(vault.amount@, u64::MAX as nat) is Some
            }
        }),
{
    let max = 0x1_0000_0000_0000_0000nat;
    let market = group.markets@[market_idx];
    let asset = liqee.c_asset(market_idx)->Some_0;
    let price = market.market_price as nat;
    let debt = (asset.debt_shares * market.oracle_price->Some_0) as nat;
    let ratio = market.mint_partial_ratio@;
    lemma_product_fits(max, scale(), liqor.position(market_idx)->Some_0.total_deposits@);
    lemma_product_of_whole(debt, ratio);
    if price > 0 && excess_defined(
        debt * scale(),
        asset.collateral as nat * scale(),
        ratio,
        group,
    ) {
        lemma_excess_debt(group, market, asset, max);
    }
    lemma_market_bankrupt(group, market, asset);
    lemma_whole_bounds(both_fees(group) * price);
    let fund = market_fund(group, market, asset);
    let fee = market_fee(group, market, asset);
    if fee > 0 {
        lemma_fee_within_fund(max, fund, fee);
        lemma_product_fits(max, scale(), quotient(fund * scale(), fee));
    }
}

/// Amounts are given ones exactly where each is.
pub proof fn law_amounts_are_all_five(
    amounts: (u64, u64, u64, u64, u64),
    given: (nat, nat, nat, nat, nat),
)
    ensures
        amounts_are(amounts, given) <==> given == (
            amounts.0 as nat,
            amounts.1 as nat,
            amounts.2 as nat,
            amounts.3 as nat,
            amounts.4 as nat,
        ),
{
}

} // verus!
