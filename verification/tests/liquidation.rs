use cypher_liquidator::collateral_check::{
    begin_check, check_collateral, continue_check, CheckStep, LiquidationCheck, Reply,
};
use cypher_liquidator::config::cypher_config::{
    CypherConfig, CypherGroupConfig, CypherMarketConfig, CypherTokenConfig,
};
use cypher_liquidator::config::liquidator_config::LiquidatorConfig;
use cypher_liquidator::liquidator::{
    cancel_user_orders, check_can_liquidate, conclude_collateral, conclude_market_collateral,
    process, process_after, settle_user_funds, Attempt, CollateralPlan, Liquidator,
    LiquidatorError, MarketPlan, ProcessStep,
};
use cypher_liquidator::mints::get_asset_and_liab_mint;
use cypher_liquidator::number::Number;
use cypher_liquidator::pubkey::Pubkey;
use cypher_liquidator::simulation::UiTokenAmount;
use cypher_liquidator::states::{
    CypherCAsset, CypherGroup, CypherMarket, CypherPosition, CypherToken, CypherUser,
    OpenOrdersInfo,
};
use cypher_liquidator::sweep;
use cypher_liquidator::utils::{
    get_open_orders, try_get_open_orders, DexMarketState, OpenOrder, OpenOrders, Side,
};

/// A number in thousandths.
fn num(thousandths: u128) -> Number {
    let scaled = thousandths * 1_000_000_000_000;
    Number { words: [scaled as u64, (scaled >> 64) as u64, 0] }
}

fn key(n: u8) -> Pubkey {
    Pubkey { bytes: [n; 32] }
}

fn market(n: u8, price: u64) -> CypherMarket {
    CypherMarket {
        dex_market: key(100 + n),
        minting_rounds: key(110 + n),
        market_price: price,
        insurance_fund: 40,
        mint_maint_ratio: num(1100),
        mint_partial_ratio: num(1300),
        oracle_price: Some(price),
    }
}

/// Two markets, then the quote token.
fn group() -> CypherGroup {
    CypherGroup {
        self_address: key(1),
        vault_signer: key(2),
        quote_vault: key(3),
        quote_mint: key(12),
        quote_token_idx: 2,
        margin_init_ratio: num(1200),
        margin_maint_ratio: num(1100),
        liq_liqor_fee: num(1040),
        liq_insurance_fee: num(10),
        insurance_fund: 50,
        tokens: vec![
            CypherToken { mint: key(10), vault: key(20) },
            CypherToken { mint: key(11), vault: key(21) },
            CypherToken { mint: key(12), vault: key(22) },
        ],
        markets: vec![market(0, 7), market(1, 3)],
    }
}

fn token(index: usize) -> CypherTokenConfig {
    CypherTokenConfig { symbol: index.to_string(), mint: String::new(), token_index: index }
}

fn config_market(index: usize) -> CypherMarketConfig {
    CypherMarketConfig { market_index: index, ..Default::default() }
}

fn liquidator_of(tokens: Vec<usize>) -> Liquidator {
    let config = CypherConfig {
        clusters: Default::default(),
        groups: vec![CypherGroupConfig {
            cluster: "devnet".to_string(),
            tokens: tokens.into_iter().map(token).collect(),
            markets: vec![config_market(0), config_market(1)],
            ..Default::default()
        }],
    };
    let settings = LiquidatorConfig { cluster: "devnet".to_string(), ..Default::default() };
    Liquidator::new(settings, config, key(1), key(60), key(61))
}

fn liquidator() -> Liquidator {
    liquidator_of(vec![0, 1, 2])
}

fn position(borrows: u128, deposits: u128) -> Option<CypherPosition> {
    Some(CypherPosition {
        base_borrows: num(borrows),
        total_borrows: num(borrows),
        total_deposits: num(deposits),
    })
}

fn user(ratio: u128, positions: Vec<Option<CypherPosition>>) -> CypherUser {
    CypherUser {
        user_signer: key(40),
        margin_c_ratio: Some(num(ratio)),
        is_bankrupt: Some(false),
        assets_value: Some(num(1_100_000)),
        liabs_value: Some(num(1_000_000)),
        positions,
        c_assets: vec![],
        listed_c_assets: vec![],
    }
}

fn liqor() -> CypherUser {
    user(1500, vec![position(0, 80_250), position(0, 5_000), position(0, 0)])
}

fn liqee() -> CypherUser {
    user(1000, vec![position(50_500, 0), position(1_000, 2_000), position(0, 3_000_500)])
}

fn asset(market_idx: usize, coin: (u64, u64), pc: (u64, u64)) -> CypherCAsset {
    CypherCAsset {
        market_idx,
        oo_info: OpenOrdersInfo {
            is_account_open: true,
            coin_free: coin.0,
            coin_total: coin.1,
            pc_free: pc.0,
            pc_total: pc.1,
        },
        collateral: 800,
        debt_shares: 100,
        mint_c_ratio_flagged: None,
        mint_c_ratio_unflagged: None,
    }
}

fn no_orders() -> OpenOrders {
    OpenOrders { free_slot_bits: u128::MAX, is_bid_bits: 0, orders: [0; 128] }
}

fn two_orders() -> OpenOrders {
    let mut account = no_orders();
    account.orders[3] = 33;
    account.orders[127] = 44;
    account.free_slot_bits = u128::MAX ^ (1 << 3) ^ (1 << 127);
    account.is_bid_bits = 1 << 127;
    account
}

const PAIR: [OpenOrder; 2] =
    [OpenOrder { order_id: 33, side: Side::Ask }, OpenOrder { order_id: 44, side: Side::Bid }];

fn plain(can_liquidate: bool) -> LiquidationCheck {
    LiquidationCheck { can_liquidate, ..Default::default() }
}

#[test]
fn open_orders_of_an_account() {
    assert_eq!(get_open_orders(&no_orders()), vec![]);
    assert_eq!(get_open_orders(&two_orders()), PAIR.to_vec());
    let mut torn = two_orders();
    torn.free_slot_bits |= 1 << 3;
    assert_eq!(try_get_open_orders(&torn), None);
}

#[test]
fn mints_with_the_highest_amounts() {
    let tokens: Vec<CypherTokenConfig> = vec![token(0), token(1), token(2)];
    assert_eq!(
        get_asset_and_liab_mint(&tokens, &group(), &liqor(), &liqee()),
        (true, key(12), key(10))
    );
    // a borrow that the liquidator cannot repay is passed over
    let poor = user(1500, vec![position(0, 50_499), position(0, 5_000)]);
    assert_eq!(
        get_asset_and_liab_mint(&tokens, &group(), &poor, &liqee()),
        (true, key(12), key(11))
    );
    // of equal amounts the last counts, also of none at all
    let nobody = user(1500, vec![]);
    assert_eq!(
        get_asset_and_liab_mint(&tokens, &group(), &nobody, &nobody),
        (true, key(12), key(12))
    );
    // nothing that the liquidator can repay
    let debtor = user(1000, vec![position(1, 0), position(1, 0), position(1, 0)]);
    assert_eq!(
        get_asset_and_liab_mint(&tokens, &group(), &nobody, &debtor),
        (false, Pubkey::default(), Pubkey::default())
    );
    // a token without a mint
    let mut nameless = group();
    nameless.tokens[2].mint = Pubkey::default();
    assert_eq!(
        get_asset_and_liab_mint(&tokens, &nameless, &liqor(), &liqee()),
        (false, Pubkey::default(), Pubkey::default())
    );
    assert_eq!(
        get_asset_and_liab_mint(&vec![], &group(), &liqor(), &liqee()),
        (false, Pubkey::default(), Pubkey::default())
    );
}

#[test]
fn healthy_users_are_left_alone() {
    let mut healthy = liqee();
    healthy.margin_c_ratio = Some(num(1100));
    healthy.listed_c_assets = vec![asset(0, (1, 1), (1, 1))];
    assert_eq!(check_collateral(&group(), &healthy, &vec![None]), Some(plain(false)));
    assert!(matches!(begin_check(&group(), &healthy), Some(CheckStep::Done(_))));
}

#[test]
fn withheld_coins_come_first() {
    let mut u = liqee();
    u.listed_c_assets = vec![asset(1, (0, 0), (5, 5)), asset(0, (2, 3), (0, 0))];
    let replies: Vec<Reply> = vec![Some((key(70), no_orders())), Some((key(71), two_orders()))];
    // the quote token is not borrowed, so only the coins of the second asset count
    let expected = LiquidationCheck {
        can_liquidate: true,
        open_orders: true,
        unsettled_funds: true,
        open_orders_pubkey: key(71),
        market_index: 0,
        orders: PAIR.to_vec(),
    };
    assert_eq!(check_collateral(&group(), &u, &replies), Some(expected.clone()));
    assert!(matches!(begin_check(&group(), &u), Some(CheckStep::FetchOpenOrders(0))));
    assert!(matches!(
        continue_check(&group(), &u, 0, &replies[0]),
        Some(CheckStep::FetchOpenOrders(1))
    ));
    match continue_check(&group(), &u, 1, &replies[1]) {
        Some(CheckStep::Done(check)) => assert_eq!(check, expected),
        _ => panic!("the check ends"),
    }
}

#[test]
fn withheld_quote_tokens_come_first() {
    let mut u = liqee();
    u.positions[2] = position(1, 0);
    u.listed_c_assets = vec![asset(1, (0, 0), (0, 5))];
    let check = check_collateral(&group(), &u, &vec![Some((key(70), no_orders()))]).unwrap();
    assert!(check.can_liquidate && !check.open_orders && !check.unsettled_funds);
    assert_eq!(check.market_index, 1);
    assert_eq!(check.open_orders_pubkey, key(70));
}

#[test]
fn missing_accounts_call_it_off() {
    let mut u = liqee();
    u.listed_c_assets = vec![asset(0, (2, 3), (0, 0))];
    assert_eq!(check_collateral(&group(), &u, &vec![None]), Some(plain(false)));
    // an account that is not open is not asked for
    u.listed_c_assets[0].oo_info.is_account_open = false;
    assert_eq!(check_collateral(&group(), &u, &vec![None]), Some(plain(true)));
    // nor one of a token in which the user has no position
    u.listed_c_assets = vec![asset(1, (2, 3), (0, 0))];
    u.positions[1] = None;
    assert_eq!(check_collateral(&group(), &u, &vec![None]), Some(plain(true)));
}

#[test]
fn checks_without_an_end() {
    let mut u = liqee();
    u.listed_c_assets = vec![asset(2, (2, 3), (0, 0))];
    assert_eq!(check_collateral(&group(), &u, &vec![None]), None);
    let mut torn = two_orders();
    torn.free_slot_bits = u128::MAX;
    u.listed_c_assets = vec![asset(0, (2, 3), (0, 0))];
    assert_eq!(check_collateral(&group(), &u, &vec![Some((key(70), torn))]), None);
    let mut unknown = liqee();
    unknown.margin_c_ratio = None;
    assert_eq!(check_collateral(&group(), &unknown, &vec![]), None);
    let mut no_quote = liqee();
    no_quote.positions.pop();
    assert_eq!(check_collateral(&group(), &no_quote, &vec![]), None);
}

#[test]
fn liquidators_need_the_initial_ratio() {
    assert_eq!(check_can_liquidate(&group(), None), Some(false));
    assert_eq!(check_can_liquidate(&group(), Some(&user(1199, vec![]))), Some(false));
    assert_eq!(check_can_liquidate(&group(), Some(&user(1200, vec![]))), Some(true));
    let mut unknown = liqor();
    unknown.margin_c_ratio = None;
    assert_eq!(check_can_liquidate(&group(), Some(&unknown)), None);
}

#[test]
fn group_is_needed() {
    let not_found = Err(LiquidatorError::CypherGroupNotFound);
    assert_eq!(process(None), ProcessStep::Done(not_found));
    assert_eq!(process(Some(&group())), ProcessStep::Attempt(Attempt::Collateral));
}

#[test]
fn both_attempts_are_made() {
    let failed = || Err(LiquidatorError::ZeroedSimulation);
    for outcome in [Ok(()), failed()] {
        assert_eq!(
            process_after(Attempt::Collateral, outcome),
            ProcessStep::Attempt(Attempt::MarketCollateral)
        );
    }
    for outcome in [Ok(()), failed()] {
        assert_eq!(
            process_after(Attempt::MarketCollateral, outcome),
            ProcessStep::Done(Ok(()))
        );
    }
}

#[test]
fn refused_market_liquidations_are_left() {
    assert_eq!(conclude_market_collateral(Ok(())), Ok(()));
    assert_eq!(conclude_market_collateral(Err("no".to_string())), Ok(()));
}

fn plan(check: &LiquidationCheck, liqor: Option<&CypherUser>) -> Result<CollateralPlan, LiquidatorError> {
    liquidator()
        .process_collateral(&group(), &liqee(), &key(50), check, liqor, liqor)
        .unwrap()
}

#[test]
fn collateral_is_liquidated() {
    match plan(&plain(true), Some(&liqor())) {
        Ok(CollateralPlan::Liquidate(ix)) => {
            assert_eq!(ix.cypher_group, key(1));
            assert_eq!(ix.cypher_user, key(60));
            assert_eq!(ix.user_signer, key(61));
            assert_eq!(ix.liqee_cypher_user, key(50));
            assert_eq!(ix.asset_mint, key(12));
            assert_eq!(ix.liab_mint, key(10));
        }
        _ => panic!("a liquidation"),
    }
}

#[test]
fn orders_and_funds_go_first() {
    assert!(matches!(plan(&plain(false), Some(&liqor())), Ok(CollateralPlan::Nothing)));
    let mut check = plain(true);
    check.unsettled_funds = true;
    assert!(matches!(plan(&check, None), Ok(CollateralPlan::SettleFunds)));
    check.open_orders = true;
    assert!(matches!(plan(&check, None), Ok(CollateralPlan::CancelOrders)));
    check.market_index = 2;
    assert!(liquidator()
        .process_collateral(&group(), &liqee(), &key(50), &check, None, None)
        .is_none());
}

#[test]
fn unfit_liquidators_do_nothing() {
    let weak = user(1199, vec![]);
    assert!(matches!(plan(&plain(true), Some(&weak)), Ok(CollateralPlan::Nothing)));
    assert!(matches!(plan(&plain(true), None), Ok(CollateralPlan::Nothing)));
    let fit = liqor();
    let gone = liquidator()
        .process_collateral(&group(), &liqee(), &key(50), &plain(true), Some(&fit), None)
        .unwrap();
    assert_eq!(gone.err(), Some(LiquidatorError::CypherLiqorNotFound));
}

#[test]
fn liquidations_that_move_nothing_are_given_up() {
    let mut owing_nothing = liqee();
    owing_nothing.positions = vec![position(0, 0), position(0, 0), position(0, 0)];
    let fit = liqor();
    let r = liquidator()
        .process_collateral(
            &group(),
            &owing_nothing,
            &key(50),
            &plain(true),
            Some(&fit),
            Some(&fit),
        )
        .unwrap();
    assert_eq!(r.err(), Some(LiquidatorError::ZeroedSimulation));
}

#[test]
fn refused_transactions() {
    let refused = || Err("no".to_string());
    let error = LiquidatorError::ErrorSubmittingTransaction("no".to_string());
    assert_eq!(conclude_collateral(&CollateralPlan::CancelOrders, refused()), Err(error));
    assert!(conclude_collateral(&CollateralPlan::SettleFunds, refused()).is_err());
    assert_eq!(conclude_collateral(&CollateralPlan::Nothing, refused()), Ok(()));
    assert_eq!(conclude_collateral(&CollateralPlan::CancelOrders, Ok(())), Ok(()));
}

fn minted(ratios: [Option<u128>; 2]) -> CypherUser {
    let mut u = liqee();
    u.c_assets = (0..2)
        .map(|i| {
            ratios[i].map(|r| {
                let mut a = asset(i, (0, 0), (0, 0));
                a.mint_c_ratio_flagged = Some(num(r));
                a.mint_c_ratio_unflagged = Some(num(r));
                a
            })
        })
        .collect();
    u
}

#[test]
fn last_market_below_the_ratio() {
    let l = liquidator();
    let check = |u: &CypherUser| l.check_market_collateral(&group(), u);
    assert_eq!(check(&minted([Some(1099), Some(1099)])), Some((true, 1)));
    assert_eq!(check(&minted([Some(1099), Some(1100)])), Some((true, 0)));
    assert_eq!(check(&minted([Some(1100), None])), Some((false, 0)));
    let mut unknown = minted([Some(1099), None]);
    unknown.is_bankrupt = None;
    assert_eq!(check(&unknown), None);
    assert_eq!(liquidator_of(vec![3]).check_market_collateral(&group(), &liqee()), None);
}

#[test]
fn market_collateral_is_liquidated() {
    let l = liquidator();
    let u = minted([Some(1099), None]);
    let fit = liqor();
    match l.process_market_collateral(&group(), &u, Some(&fit), Some(&fit)) {
        Some(Ok(MarketPlan::FetchVault { market_idx, vault })) => {
            assert_eq!(market_idx, 0);
            assert_eq!(vault, key(20));
        }
        _ => panic!("a vault to fetch"),
    }
    let balance = |amount: &str| UiTokenAmount { amount: amount.to_string() };
    let ix = l
        .liquidate_market_collateral(&group(), &fit, &u, &key(50), &balance("1000"), 0)
        .unwrap()
        .unwrap();
    assert_eq!(ix.cypher_group, key(1));
    assert_eq!(ix.vault_signer, key(2));
    assert_eq!(ix.minting_rounds, key(110));
    assert_eq!(ix.cypher_user, key(60));
    assert_eq!(ix.user_signer, key(61));
    assert_eq!(ix.liqee_cypher_user, key(50));
    assert_eq!(ix.c_asset_mint, key(10));
    assert_eq!(ix.cypher_c_asset_vault, key(20));
    assert_eq!(ix.token_program.bytes, spl_token::id().to_bytes());
    let empty = l.liquidate_market_collateral(&group(), &fit, &u, &key(50), &balance("0"), 0);
    assert_eq!(empty, Some(Err(LiquidatorError::ZeroedSimulation)));
    let torn = l.liquidate_market_collateral(&group(), &fit, &u, &key(50), &balance("x"), 0);
    assert_eq!(torn, None);
}

#[test]
fn market_collateral_is_left() {
    let l = liquidator();
    let u = minted([Some(1099), None]);
    let fit = liqor();
    let weak = user(1199, vec![]);
    assert!(matches!(
        l.process_market_collateral(&group(), &u, Some(&weak), Some(&weak)),
        Some(Ok(MarketPlan::Nothing))
    ));
    assert!(matches!(
        l.process_market_collateral(&group(), &minted([None, None]), Some(&fit), Some(&fit)),
        Some(Ok(MarketPlan::Nothing))
    ));
    assert!(matches!(
        l.process_market_collateral(&group(), &u, Some(&fit), None),
        Some(Err(LiquidatorError::CypherLiqorNotFound))
    ));
}

fn dex() -> DexMarketState {
    DexMarketState {
        event_q: key(80),
        bids: key(81),
        asks: key(82),
        coin_vault: key(83),
        pc_vault: key(84),
        vault_signer: key(85),
        prune_authority: key(86),
    }
}

#[test]
fn instructions_before_a_liquidation() {
    let check = LiquidationCheck {
        can_liquidate: true,
        open_orders: true,
        unsettled_funds: true,
        open_orders_pubkey: key(70),
        market_index: 1,
        orders: PAIR.to_vec(),
    };
    let settle = settle_user_funds(&group(), &dex(), &liqee(), &key(50), &check);
    assert_eq!(
        [
            settle.cypher_group,
            settle.vault_signer,
            settle.cypher_user,
            settle.user_signer,
            settle.c_asset_mint,
            settle.cypher_c_asset_vault,
            settle.cypher_pc_vault,
            settle.dex_market,
            settle.open_orders,
            settle.dex_coin_vault,
            settle.dex_pc_vault,
            settle.dex_vault_signer,
        ],
        [1, 2, 50, 40, 11, 21, 3, 101, 70, 83, 84, 85].map(key)
    );
    let cancels = cancel_user_orders(&group(), &dex(), &liqee(), &key(50), &check);
    assert_eq!(cancels.len(), 2);
    for (cancel, order) in cancels.iter().zip(PAIR) {
        assert_eq!((cancel.order_id, cancel.side), (order.order_id, order.side));
        assert_eq!(
            [
                cancel.cypher_group,
                cancel.vault_signer,
                cancel.cypher_user,
                cancel.user_signer,
                cancel.c_asset_mint,
                cancel.cypher_c_asset_vault,
                cancel.cypher_pc_vault,
                cancel.dex_market,
                cancel.prune_authority,
                cancel.open_orders,
                cancel.dex_event_queue,
                cancel.dex_bids,
                cancel.dex_asks,
                cancel.dex_coin_vault,
                cancel.dex_pc_vault,
                cancel.dex_vault_signer,
            ],
            [1, 2, 50, 40, 11, 21, 3, 101, 86, 70, 80, 81, 82, 83, 84, 85].map(key)
        );
    }
}

#[test]
fn sweep_takes_the_first_highest() {
    let tokens: Vec<CypherTokenConfig> = vec![token(0), token(1), token(2)];
    assert_eq!(sweep::get_liquidator_asset_mint(&tokens, &liqor()), 0);
    let even = user(1000, vec![position(0, 0), position(9, 9), position(9, 9)]);
    assert_eq!(sweep::get_liquidator_asset_mint(&tokens, &even), 1);
    assert_eq!(sweep::check_collateral(&tokens, &group(), &even), Some((true, 1)));
    let nobody = user(1000, vec![]);
    assert_eq!(sweep::check_collateral(&tokens, &group(), &nobody), Some((true, 0)));
    let healthy = user(1100, vec![]);
    assert_eq!(sweep::check_collateral(&tokens, &group(), &healthy), Some((false, 0)));
    assert_eq!(sweep::check_collateral(&vec![token(3)], &group(), &nobody), None);
}

#[test]
fn sweep_stops_at_the_quote_token() {
    let below = minted([Some(1000), Some(1000)]);
    let check = |list: Vec<usize>| {
        let tokens: Vec<CypherTokenConfig> = list.into_iter().map(token).collect();
        sweep::check_market_collateral(&tokens, &group(), &below)
    };
    assert_eq!(check(vec![0, 1, 2]), Some((true, 0)));
    assert_eq!(check(vec![1, 0]), Some((true, 1)));
    assert_eq!(check(vec![2, 0]), Some((false, 0)));
    assert_eq!(check(vec![5]), None);
}

#[test]
fn ratios_are_asked_for_with_a_flag() {
    let mut u = minted([Some(1000), None]);
    let asset = u.c_assets[0].as_mut().unwrap();
    asset.mint_c_ratio_unflagged = Some(num(1100));
    assert_eq!(asset.get_mint_c_ratio(true), Some(num(1000)));
    assert_eq!(asset.get_mint_c_ratio(false), Some(num(1100)));
    assert_eq!(liquidator().check_market_collateral(&group(), &u), Some((true, 0)));
    let tokens: Vec<CypherTokenConfig> = vec![token(0)];
    assert_eq!(sweep::check_market_collateral(&tokens, &group(), &u), Some((false, 0)));
}

#[test]
fn sweep_of_a_user() {
    let l = liquidator();
    let fit = liqor();
    let ix = l
        .sweep_collateral(&group(), &liqee(), &key(50), Some(&fit), Some(&fit))
        .unwrap()
        .unwrap();
    assert_eq!((ix.asset_mint, ix.liab_mint), (key(10), key(10)));
    assert_eq!((ix.cypher_user, ix.user_signer, ix.liqee_cypher_user), (key(60), key(61), key(50)));
    assert_eq!(l.sweep_collateral(&group(), &liqee(), &key(50), None, None), Some(None));
    assert_eq!(l.sweep_collateral(&group(), &liqee(), &key(50), Some(&fit), None), None);
    let u = minted([None, Some(1000)]);
    let ix = l.sweep_market_collateral(&group(), &u, &key(50), Some(&fit)).unwrap().unwrap();
    assert_eq!((ix.c_asset_mint, ix.minting_rounds), (key(11), key(111)));
    assert_eq!(l.sweep_market_collateral(&group(), &u, &key(50), None), Some(None));
    let request = l.all_accounts_request();
    assert_eq!((request.offset, request.data_size, request.with_data), (8, 3960, true));
    assert_eq!(request.bytes, key(1).to_base58());
}
