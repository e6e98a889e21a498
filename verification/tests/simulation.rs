use cypher_liquidator::number::Number;
use cypher_liquidator::pubkey::Pubkey;
use cypher_liquidator::simulation::{
    simulate_liquidate_collateral, simulate_liquidate_market_collateral,
    try_simulate_liquidate_collateral, try_simulate_liquidate_market_collateral, UiTokenAmount,
};
use cypher_liquidator::states::{
    CypherCAsset, CypherGroup, CypherMarket, CypherPosition, CypherToken, CypherUser,
    OpenOrdersInfo,
};

/// A number in thousandths.
fn num(thousandths: u128) -> Number {
    let scaled = thousandths * 1_000_000_000_000;
    Number { words: [scaled as u64, (scaled >> 64) as u64, 0] }
}

fn key(n: u8) -> Pubkey {
    Pubkey { bytes: [n; 32] }
}

fn group() -> CypherGroup {
    CypherGroup {
        self_address: key(1),
        vault_signer: key(2),
        quote_vault: key(3),
        quote_mint: key(9),
        quote_token_idx: 1,
        margin_init_ratio: num(1200),
        margin_maint_ratio: num(1100),
        liq_liqor_fee: num(1040),
        liq_insurance_fee: num(10),
        insurance_fund: 50,
        tokens: vec![
            CypherToken { mint: key(8), vault: key(18) },
            CypherToken { mint: key(9), vault: key(19) },
        ],
        markets: vec![CypherMarket {
            dex_market: key(30),
            minting_rounds: key(31),
            market_price: 7,
            insurance_fund: 40,
            mint_maint_ratio: num(1100),
            mint_partial_ratio: num(1300),
            oracle_price: Some(7),
        }],
    }
}

fn position(borrows: u128, deposits: u128) -> Option<CypherPosition> {
    Some(CypherPosition {
        base_borrows: num(borrows),
        total_borrows: num(borrows),
        total_deposits: num(deposits),
    })
}

fn user(token: (u128, u128), quote: (u128, u128)) -> CypherUser {
    CypherUser {
        user_signer: key(40),
        margin_c_ratio: Some(num(1000)),
        is_bankrupt: Some(false),
        assets_value: Some(num(1_100_000)),
        liabs_value: Some(num(1_000_000)),
        positions: vec![position(token.0, token.1), position(quote.0, quote.1)],
        c_assets: vec![],
        listed_c_assets: vec![],
    }
}

fn asset(collateral: u64, debt_shares: u64) -> CypherCAsset {
    CypherCAsset {
        market_idx: 0,
        oo_info: OpenOrdersInfo {
            is_account_open: false,
            coin_free: 0,
            coin_total: 0,
            pc_free: 0,
            pc_total: 0,
        },
        collateral,
        debt_shares,
        mint_c_ratio_flagged: None,
        mint_c_ratio_unflagged: None,
    }
}

fn vault(amount: &str) -> UiTokenAmount {
    UiTokenAmount { amount: amount.to_string() }
}

#[test]
fn solvent_user_limited_by_the_liquidator() {
    let liqor = user((0, 80_250), (0, 0));
    let liqee = user((100_500, 0), (0, 3_000_500));
    assert_eq!(
        simulate_liquidate_collateral(&group(), &liqor, &liqee, &key(9), &key(8)),
        (80, 588, 0, 5, 0)
    );
}

#[test]
fn solvent_user_limited_by_the_asset() {
    let liqor = user((0, 80_250), (0, 0));
    let liqee = user((100_500, 0), (0, 300_500));
    assert_eq!(
        simulate_liquidate_collateral(&group(), &liqor, &liqee, &key(9), &key(8)),
        (40, 294, 0, 2, 0)
    );
}

#[test]
fn solvent_user_with_a_quote_liability() {
    let liqor = user((0, 0), (0, 5_000_000));
    let liqee = user((0, 100_500), (900_000, 0));
    assert_eq!(
        simulate_liquidate_collateral(&group(), &liqor, &liqee, &key(8), &key(9)),
        (666, 100, 0, 6, 0)
    );
}

#[test]
fn bankrupt_user_is_paid_by_the_market() {
    let liqor = user((0, 80_250), (0, 0));
    let mut liqee = user((100_500, 0), (0, 0));
    liqee.is_bankrupt = Some(true);
    liqee.assets_value = Some(num(10_000));
    assert_eq!(
        simulate_liquidate_collateral(&group(), &liqor, &liqee, &key(9), &key(8)),
        (5, 0, 36, 0, 0)
    );
}

#[test]
fn bankrupt_user_is_paid_by_the_group() {
    let liqor = user((0, 0), (0, 0));
    let mut liqee = user((0, 0), (900_000, 0));
    liqee.is_bankrupt = Some(true);
    liqee.assets_value = Some(num(10_000));
    assert_eq!(
        simulate_liquidate_collateral(&group(), &liqor, &liqee, &key(9), &key(9)),
        (50, 0, 0, 0, 50)
    );
    liqee.positions = vec![position(0, 0), position(30_750, 0)];
    assert_eq!(
        simulate_liquidate_collateral(&group(), &liqor, &liqee, &key(9), &key(9)),
        (30, 0, 0, 0, 30)
    );
}

#[test]
fn collateral_without_amounts() {
    let liqor = user((0, 80_250), (0, 0));
    let liqee = user((100_500, 0), (0, 3_000_500));
    let none = |g: &CypherGroup, a: &CypherUser, b: &CypherUser, x: &Pubkey, y: &Pubkey| {
        assert_eq!(try_simulate_liquidate_collateral(g, a, b, x, y), None)
    };
    // an unknown mint
    none(&group(), &liqor, &liqee, &key(77), &key(8));
    none(&group(), &liqor, &liqee, &key(9), &key(77));
    // a bankrupt user pays in the quote token only
    let mut bankrupt = user((100_500, 0), (0, 0));
    bankrupt.is_bankrupt = Some(true);
    none(&group(), &liqor, &bankrupt, &key(8), &key(9));
    // values that are not known
    let mut unknown = user((100_500, 0), (0, 3_000_500));
    unknown.is_bankrupt = None;
    none(&group(), &liqor, &unknown, &key(9), &key(8));
    let mut no_assets = user((100_500, 0), (0, 3_000_500));
    no_assets.assets_value = None;
    none(&group(), &liqor, &no_assets, &key(9), &key(8));
    // more assets than the margin asks for
    let mut rich = user((100_500, 0), (0, 3_000_500));
    rich.assets_value = Some(num(1_200_001));
    none(&group(), &liqor, &rich, &key(9), &key(8));
    // fees that leave nothing of the ratio
    let mut greedy = group();
    greedy.liq_insurance_fee = num(160);
    none(&greedy, &liqor, &liqee, &key(9), &key(8));
    // a price of zero
    let mut worthless = group();
    worthless.markets[0].market_price = 0;
    none(&worthless, &liqor, &liqee, &key(9), &key(8));
    // a position that is not there
    let mut empty = user((0, 0), (0, 0));
    empty.positions = vec![];
    none(&group(), &empty, &liqee, &key(9), &key(8));
}

#[test]
fn market_collateral_limited_by_the_liquidator() {
    let liqor = user((0, 60_000), (0, 0));
    let mut liqee = user((0, 0), (0, 0));
    liqee.c_assets = vec![Some(asset(800, 100))];
    assert_eq!(
        simulate_liquidate_market_collateral(&group(), &liqor, &liqee, &vault("1000"), 0),
        (60, 436, 440, 0, 4)
    );
}

#[test]
fn market_collateral_limited_by_the_debt_and_the_vault() {
    let liqor = user((0, 6_000_000), (0, 0));
    let mut liqee = user((0, 0), (0, 0));
    liqee.c_assets = vec![Some(asset(800, 100))];
    assert_eq!(
        simulate_liquidate_market_collateral(&group(), &liqor, &liqee, &vault("1000"), 0),
        (62, 451, 455, 0, 4)
    );
    assert_eq!(
        simulate_liquidate_market_collateral(&group(), &liqor, &liqee, &vault("3"), 0),
        (3, 21, 21, 0, 0)
    );
}

#[test]
fn bankrupt_market_collateral_is_insured() {
    let liqor = user((0, 60_000), (0, 0));
    let mut liqee = user((0, 0), (0, 0));
    liqee.c_assets = vec![Some(asset(5, 100))];
    assert_eq!(
        simulate_liquidate_market_collateral(&group(), &liqor, &liqee, &vault("1000"), 0),
        (5, 36, 5, 36, 0)
    );
}

#[test]
fn market_without_amounts() {
    let liqor = user((0, 60_000), (0, 0));
    let mut liqee = user((0, 0), (0, 0));
    liqee.c_assets = vec![Some(asset(800, 100))];
    let none = |g: &CypherGroup, u: &CypherUser, v: &str, idx: usize| {
        assert_eq!(
            try_simulate_liquidate_market_collateral(g, &liqor, u, &vault(v), idx),
            None
        )
    };
    none(&group(), &liqee, "1000", 1);
    none(&group(), &liqee, "many", 0);
    let mut blind = group();
    blind.markets[0].oracle_price = None;
    none(&blind, &liqee, "1000", 0);
    let mut covered = user((0, 0), (0, 0));
    covered.c_assets = vec![Some(asset(911, 100))];
    none(&group(), &covered, "1000", 0);
    let mut huge = user((0, 0), (0, 0));
    huge.c_assets = vec![Some(asset(800, u64::MAX))];
    none(&group(), &huge, "1000", 0);
    none(&group(), &user((0, 0), (0, 0)), "1000", 0);
}
