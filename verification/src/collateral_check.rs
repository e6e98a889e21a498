//! Whether the collateral of a user is to be liquidated, and what has to happen before.
//!
//! The check goes through the synthetic assets of the user and asks, one at a time, for the open
//! orders account of those that have one: [`begin_check`] and [`continue_check`] say which
//! account to fetch next or how the check ends, and [`check_collateral`] runs them on replies
//! that are all at hand.
use vstd::prelude::*;

use crate::number::Number;
use crate::pubkey::{null_key, Pubkey};
use crate::states::{CypherCAsset, CypherGroup, CypherUser};
use crate::utils::{try_get_open_orders, OpenOrder, OpenOrders};

verus! {

/// How a check of the collateral of a user ends.
#[derive(Clone, Debug, PartialEq, Eq)]
pub struct LiquidationCheck {
    pub can_liquidate: bool,
    /// There are orders to cancel first.
    pub open_orders: bool,
    /// There are funds to settle first.
    pub unsettled_funds: bool,
    pub open_orders_pubkey: Pubkey,
    pub market_index: usize,
    pub orders: Vec<OpenOrder>,
}

/// The values of a [`LiquidationCheck`].
pub struct CheckView {
    pub can_liquidate: bool,
    pub open_orders: bool,
    pub unsettled_funds: bool,
    pub open_orders_pubkey: Seq<u8>,
    pub market_index: usize,
    pub orders: Seq<OpenOrder>,
}

impl View for LiquidationCheck {
    type V = CheckView;

    open spec fn view(&self) -> CheckView {
        CheckView {
            can_liquidate: self.can_liquidate,
            open_orders: self.open_orders,
            unsettled_funds: self.unsettled_funds,
            open_orders_pubkey: self.open_orders_pubkey@,
            market_index: self.market_index,
            orders: self.orders@,
        }
    }
}

/// A check that names no market.
pub open spec fn plain_check(can_liquidate: bool) -> CheckView {
    CheckView {
        can_liquidate,
        open_orders: false,
        unsettled_funds: false,
        open_orders_pubkey: null_key(),
        market_index: 0,
        orders: Seq::empty(),
    }
}

/// The next step of a check.
pub enum CheckStep {
    /// Fetch the open orders account of the market of a listed asset.
    FetchOpenOrders(usize),
    /// The check has ended.
    Done(LiquidationCheck),
}

/// The values of a [`CheckStep`].
pub enum StepView {
    FetchOpenOrders(int),
    Done(CheckView),
}

impl View for CheckStep {
    type V = StepView;

    open spec fn view(&self) -> StepView {
        match self {
            CheckStep::FetchOpenOrders(asset) => StepView::FetchOpenOrders(*asset as int),
            CheckStep::Done(check) => StepView::Done(check@),
        }
    }
}

/// An open orders account with its address, or nothing where it could not be fetched.
pub type Reply = Option<(Pubkey, OpenOrders)>;

/// Whether the margin ratio of the user is below the maintenance ratio of the group.
pub open spec fn below_maintenance(group: &CypherGroup, user: &CypherUser) -> bool {
    user.margin_c_ratio->Some_0@ < group.margin_maint_ratio@
}

/// Whether the user has borrowed the quote token.
pub open spec fn has_quote_borrows(group: &CypherGroup, user: &CypherUser) -> bool {
    user.position(group.quote_token_idx as int)->Some_0.base_borrows@ > 0
}

/// Whether the user has borrowed the token of an asset and has some of it in the market.
pub open spec fn coin_withheld(user: &CypherUser, asset: CypherCAsset) -> bool {
    user.position(asset.market_idx as int)->Some_0.base_borrows@ > 0 && asset.oo_info.coin_total
        != 0
}

/// Whether the user has borrowed the quote token and has some of it in the market.
pub open spec fn quote_withheld(
    group: &CypherGroup,
    user: &CypherUser,
    asset: CypherCAsset,
) -> bool {
    has_quote_borrows(group, user) && asset.oo_info.pc_total != 0
}

/// Whether the market of an asset is one of the group.
pub open spec fn asset_in_group(group: &CypherGroup, asset: CypherCAsset) -> bool {
    asset.market_idx < group.markets@.len() && asset.market_idx < group.tokens@.len()
}

/// The check that an asset with withheld funds leads to.
pub open spec fn blocked_check(
    asset: CypherCAsset,
    unsettled: bool,
    key: Seq<u8>,
    open_orders: OpenOrders,
) -> CheckView {
    CheckView {
        can_liquidate: true,
        open_orders: open_orders.open_orders().len() > 0,
        unsettled_funds: unsettled,
        open_orders_pubkey: key,
        market_index: asset.market_idx,
        orders: open_orders.open_orders(),
    }
}

/// How the check ends when the listed assets before an index have not ended it: the first asset
/// with withheld funds decides, an account that could not be fetched calls the liquidation off,
/// and a user without withheld funds is to be liquidated. There is no end where an asset is of
/// no market of the group or an account does not agree with itself.
pub open spec fn check_from(
    group: &CypherGroup,
    user: &CypherUser,
    replies: Seq<Reply>,
    from: int,
) -> Option<CheckView>
    decreases user.listed_c_assets@.len() - from,
{
    if from < 0 || from >= user.listed_c_assets@.len() {
        Some(plain_check(true))
    } else {
        let asset = user.listed_c_assets@[from];
        if !asset.oo_info.is_account_open {
            check_from(group, user, replies, from + 1)
        } else if !asset_in_group(group, asset) {
            None
        } else if user.position(asset.market_idx as int) is None {
            check_from(group, user, replies, from + 1)
        } else {
            match replies[from] {
                None => Some(plain_check(false)),
                Some((key, open_orders)) => if !open_orders.slots_agree() {
                    None
                } else if coin_withheld(user, asset) {
                    Some(
                        blocked_check(asset, asset.oo_info.coin_free != 0, key@, open_orders),
                    )
                } else if quote_withheld(group, user, asset) {
                    Some(blocked_check(asset, asset.oo_info.pc_free != 0, key@, open_orders))
                } else {
                    check_from(group, user, replies, from + 1)
                },
            }
        }
    }
}

/// How a check ends: a user at or above the maintenance ratio is not to be liquidated.
pub open spec fn check_outcome(
    group: &CypherGroup,
    user: &CypherUser,
    replies: Seq<Reply>,
) -> Option<CheckView> {
    if user.margin_c_ratio is None {
        None
    } else if !below_maintenance(group, user) {
        Some(plain_check(false))
    } else if user.is_bankrupt is None || user.position(group.quote_token_idx as int) is None {
        None
    } else {
        check_from(group, user, replies, 0)
    }
}

/// The next step when the listed assets before an index have not ended the check.
pub open spec fn step_from(group: &CypherGroup, user: &CypherUser, from: int) -> Option<StepView>
    decreases user.listed_c_assets@.len() - from,
{
    if from < 0 || from >= user.listed_c_assets@.len() {
        Some(StepView::Done(plain_check(true)))
    } else {
        let asset = user.listed_c_assets@[from];
        if !asset.oo_info.is_account_open {
            step_from(group, user, from + 1)
        } else if !asset_in_group(group, asset) {
            None
        } else if user.position(asset.market_idx as int) is None {
            step_from(group, user, from + 1)
        } else {
            Some(StepView::FetchOpenOrders(from))
        }
    }
}

/// The first step of a check.
pub open spec fn first_step(group: &CypherGroup, user: &CypherUser) -> Option<StepView> {
    if user.margin_c_ratio is None {
        None
    } else if !below_maintenance(group, user) {
        Some(StepView::Done(plain_check(false)))
    } else if user.is_bankrupt is None || user.position(group.quote_token_idx as int) is None {
        None
    } else {
        step_from(group, user, 0)
    }
}

/// The step after the open orders account of an asset was asked for.
pub open spec fn step_after(
    group: &CypherGroup,
    user: &CypherUser,
    asset: int,
    reply: Reply,
) -> Option<StepView> {
    let c_asset = user.listed_c_assets@[asset];
    match reply {
        None => Some(StepView::Done(plain_check(false))),
        Some((key, open_orders)) => if !open_orders.slots_agree() {
            None
        } else if coin_withheld(user, c_asset) {
            Some(
                StepView::Done(
                    blocked_check(c_asset, c_asset.oo_info.coin_free != 0, key@, open_orders),
                ),
            )
        } else if quote_withheld(group, user, c_asset) {
            Some(
                StepView::Done(
                    blocked_check(c_asset, c_asset.oo_info.pc_free != 0, key@, open_orders),
                ),
            )
        } else {
            step_from(group, user, asset + 1)
        },
    }
}

/// Whether the check of a user can ask for the open orders account of a listed asset.
pub open spec fn fetchable(group: &CypherGroup, user: &CypherUser, asset: int) -> bool {
    &&& 0 <= asset < user.listed_c_assets@.len()
    &&& user.position(user.listed_c_assets@[asset].market_idx as int) is Some
    &&& user.position(group.quote_token_idx as int) is Some
}

/// The next step asks for a later asset, and its reply leads to the same end.
proof fn lemma_step_from(
    group: &CypherGroup,
    user: &CypherUser,
    replies: Seq<Reply>,
    from: int,
)
    requires
        0 <= from <= user.listed_c_assets@.len(),
    ensures
        match step_from(group, user, from) {
            None => check_from(group, user, replies, from) is None,
            Some(StepView::Done(check)) => check_from(group, user, replies, from) == Some(check),
            Some(StepView::FetchOpenOrders(asset)) => {
                &&& from <= asset < user.listed_c_assets@.len()
                &&& user.position(user.listed_c_assets@[asset].market_idx as int) is Some
                &&& asset_in_group(group, user.listed_c_assets@[asset])
                &&& user.listed_c_assets@[asset].oo_info.is_account_open
                &&& check_from(group, user, replies, from) == check_from(
                    group,
                    user,
                    replies,
                    asset,
                )
            },
        },
    decreases user.listed_c_assets@.len() - from,
{
    if from < user.listed_c_assets@.len() {
        let asset = user.listed_c_assets@[from];
        if !asset.oo_info.is_account_open || (asset_in_group(group, asset) && user.position(
            asset.market_idx as int,
        ) is None) {
            lemma_step_from(group, user, replies, from + 1);
        }
    }
}

fn plain(can_liquidate: bool) -> (r: LiquidationCheck)
    ensures
        r@ == plain_check(can_liquidate),
{
    LiquidationCheck {
        can_liquidate,
        open_orders: false,
        unsettled_funds: false,
        open_orders_pubkey: Pubkey::default(),
        market_index: 0,
        orders: Vec::new(),
    }
}

impl Default for LiquidationCheck {
    fn default() -> (r: LiquidationCheck)
        ensures
            r@ == plain_check(false),
    {
        plain(false)
    }
}

/// Whether a step, or that there is none, is a given one.
pub open spec fn step_is(step: Option<CheckStep>, given: Option<StepView>) -> bool {
    match step {
        Some(s) => given == Some(s@),
        None => given is None,
    }
}

fn step_at(group: &CypherGroup, user: &CypherUser, start: usize) -> (r: Option<CheckStep>)
    requires
        start <= user.listed_c_assets@.len(),
    ensures
        step_is(r, step_from(group, user, start as int)),
{
    let mut i: usize = start;
    while i < user.listed_c_assets.len()
        invariant
            i <= user.listed_c_assets@.len(),
            step_from(group, user, start as int) == step_from(group, user, i as int),
        decreases user.listed_c_assets@.len() - i,
    {
        let asset = user.listed_c_assets[i];
        if asset.oo_info.is_account_open {
            if asset.market_idx >= group.markets.len() || asset.market_idx >= group.tokens.len() {
                return None;
            }
            if user.get_position(asset.market_idx).is_some() {
                return Some(CheckStep::FetchOpenOrders(i));
            }
        }
        i = i + 1;
    }
    Some(CheckStep::Done(plain(true)))
}

/// The first step of the check of a user.
pub fn begin_check(cypher_group: &CypherGroup, cypher_user: &CypherUser) -> (r: Option<CheckStep>)
    ensures
        step_is(r, first_step(cypher_group, cypher_user)),
{
    if !cypher_user.margin_c_ratio?.below(cypher_group.margin_maint_ratio) {
        return Some(CheckStep::Done(plain(false)));
    }
    if cypher_user.is_bankrupt.is_none() || cypher_user.get_position(
        cypher_group.quote_token_idx,
    ).is_none() {
        return None;
    }
    step_at(cypher_group, cypher_user, 0)
}

/// The step of the check of a user after the open orders account of a listed asset was asked
/// for.
pub fn continue_check(
    cypher_group: &CypherGroup,
    cypher_user: &CypherUser,
    asset: usize,
    reply: &Reply,
) -> (r: Option<CheckStep>)
    requires
        fetchable(cypher_group, cypher_user, asset as int),
    ensures
        step_is(r, step_after(cypher_group, cypher_user, asset as int, *reply)),
{
    let (open_orders_pubkey, open_orders) = match reply {
        Some((key, account)) => (*key, try_get_open_orders(account)?),
        None => {
            return Some(CheckStep::Done(plain(false)));
        },
    };
    let c_asset = cypher_user.listed_c_assets[asset];
    let has_orders: bool = open_orders.len() > 0;
    let quote_position = cypher_user.get_position(cypher_group.quote_token_idx)?;
    let has_quote_borrows: bool = Number::zero().below(quote_position.base_borrows);
    let cypher_position = cypher_user.get_position(c_asset.market_idx)?;

    if Number::zero().below(cypher_position.base_borrows) && c_asset.oo_info.coin_total != 0 {
        return Some(
            CheckStep::Done(
                LiquidationCheck {
                    can_liquidate: true,
                    open_orders: has_orders,
                    unsettled_funds: c_asset.oo_info.coin_free != 0,
                    open_orders_pubkey,
                    market_index: c_asset.market_idx,
                    orders: open_orders,
                },
            ),
        );
    }
    if has_quote_borrows && c_asset.oo_info.pc_total != 0 {
        return Some(
            CheckStep::Done(
                LiquidationCheck {
                    can_liquidate: true,
                    open_orders: has_orders,
                    unsettled_funds: c_asset.oo_info.pc_free != 0,
                    open_orders_pubkey,
                    market_index: c_asset.market_idx,
                    orders: open_orders,
                },
            ),
        );
    }
    assert(asset < cypher_user.listed_c_assets.len());
    step_at(cypher_group, cypher_user, asset + 1)
}

/// How the check of a user ends on given replies, one for each listed asset.
pub fn check_collateral(
    cypher_group: &CypherGroup,
    cypher_user: &CypherUser,
    replies: &Vec<Reply>,
) -> (r: Option<LiquidationCheck>)
    requires
        replies@.len() == cypher_user.listed_c_assets@.len(),
    ensures
        match r {
            Some(check) => check_outcome(cypher_group, cypher_user, replies@) == Some(check@),
            None => check_outcome(cypher_group, cypher_user, replies@) is None,
        },
{
    let ghost outcome = check_outcome(cypher_group, cypher_user, replies@);
    proof {
        lemma_step_from(cypher_group, cypher_user, replies@, 0);
    }
    let mut asset: usize = match begin_check(cypher_group, cypher_user)? {
        CheckStep::Done(check) => {
            return Some(check);
        },
        CheckStep::FetchOpenOrders(first) => first,
    };
    loop
        invariant
            replies@.len() == cypher_user.listed_c_assets@.len(),
            outcome == check_outcome(cypher_group, cypher_user, replies@),
            fetchable(cypher_group, cypher_user, asset as int),
            cypher_user.listed_c_assets@[asset as int].oo_info.is_account_open,
            asset_in_group(cypher_group, cypher_user.listed_c_assets@[asset as int]),
            outcome == check_from(cypher_group, cypher_user, replies@, asset as int),
        decreases cypher_user.listed_c_assets@.len() - asset,
    {
        proof {
            lemma_step_from(cypher_group, cypher_user, replies@, asset + 1);
        }
        match continue_check(cypher_group, cypher_user, asset, &replies[asset])? {
            CheckStep::Done(check) => {
                return Some(check);
            },
            CheckStep::FetchOpenOrders(next) => {
                asset = next;
            },
        }
    }
}

/// A user at or above the maintenance ratio is never liquidated, whatever is fetched.
pub proof fn law_healthy_user_is_left_alone(
    group: &CypherGroup,
    user: &CypherUser,
    replies: Seq<Reply>,
)
    requires
        user.margin_c_ratio is Some,
        !below_maintenance(group, user),
    ensures
        check_outcome(group, user, replies) == Some(plain_check(false)),
{
}

/// Whether a listed asset leaves the check of a user open: its account is not open, the user has
/// no position in its token, or its account was fetched and nothing is withheld in it.
pub open spec fn passed_over(
    group: &CypherGroup,
    user: &CypherUser,
    replies: Seq<Reply>,
    asset: int,
) -> bool {
    let c_asset = user.listed_c_assets@[asset];
    c_asset.oo_info.is_account_open ==> {
        &&& asset_in_group(group, c_asset)
        &&& user.position(c_asset.market_idx as int) is Some ==> {
            &&& replies[asset] is Some
            &&& replies[asset]->Some_0.1.slots_agree()
            &&& !coin_withheld(user, c_asset)
            &&& !quote_withheld(group, user, c_asset)
        }
    }
}

/// Whether a user is up for liquidation, as far as the margin ratio goes.
pub open spec fn up_for_liquidation(group: &CypherGroup, user: &CypherUser) -> bool {
    &&& user.margin_c_ratio is Some
    &&& below_maintenance(group, user)
    &&& user.is_bankrupt is Some
    &&& user.position(group.quote_token_idx as int) is Some
}

/// Whether the check of a user asks for the open orders account of a listed asset when it comes
/// to it.
pub open spec fn asked_for(group: &CypherGroup, user: &CypherUser, asset: int) -> bool {
    let c_asset = user.listed_c_assets@[asset];
    &&& c_asset.oo_info.is_account_open
    &&& asset_in_group(group, c_asset)
    &&& user.position(c_asset.market_idx as int) is Some
}

proof fn lemma_passed_over(
    group: &CypherGroup,
    user: &CypherUser,
    replies: Seq<Reply>,
    from: int,
    asset: int,
)
    requires
        0 <= from <= asset <= user.listed_c_assets@.len(),
        forall|i: int| from <= i < asset ==> #[trigger] passed_over(group, user, replies, i),
    ensures
        check_from(group, user, replies, from) == check_from(group, user, replies, asset),
    decreases asset - from,
{
    if from < asset {
        assert(passed_over(group, user, replies, from));
        lemma_passed_over(group, user, replies, from + 1, asset);
    }
}

/// The first listed asset with withheld funds decides: its orders are to be cancelled and its
/// free funds to be settled before the user is liquidated.
pub proof fn law_first_withheld_asset_decides(
    group: &CypherGroup,
    user: &CypherUser,
    replies: Seq<Reply>,
    asset: int,
)
    requires
        up_for_liquidation(group, user),
        0 <= asset < user.listed_c_assets@.len(),
        forall|i: int| 0 <= i < asset ==> #[trigger] passed_over(group, user, replies, i),
        asked_for(group, user, asset),
        replies[asset] is Some,
        replies[asset]->Some_0.1.slots_agree(),
        coin_withheld(user, user.listed_c_assets@[asset]) || quote_withheld(
            group,
            user,
            user.listed_c_assets@[asset],
        ),
    ensures
        ({
            let c_asset = user.listed_c_assets@[asset];
            let free = if coin_withheld(user, c_asset) {
                c_asset.oo_info.coin_free
            } else {
                c_asset.oo_info.pc_free
            };
            check_outcome(group, user, replies) == Some(
                blocked_check(
                    c_asset,
                    free != 0,
                    replies[asset]->Some_0.0@,
                    replies[asset]->Some_0.1,
                ),
            )
        }),
{
    lemma_passed_over(group, user, replies, 0, asset);
}

/// The first account that cannot be fetched calls the liquidation off.
pub proof fn law_missing_account_calls_it_off(
    group: &CypherGroup,
    user: &CypherUser,
    replies: Seq<Reply>,
    asset: int,
)
    requires
        up_for_liquidation(group, user),
        0 <= asset < user.listed_c_assets@.len(),
        forall|i: int| 0 <= i < asset ==> #[trigger] passed_over(group, user, replies, i),
        asked_for(group, user, asset),
        replies[asset] is None,
    ensures
        check_outcome(group, user, replies) == Some(plain_check(false)),
{
    lemma_passed_over(group, user, replies, 0, asset);
}

/// A user below the maintenance ratio with nothing withheld is to be liquidated at once.
pub proof fn law_nothing_withheld_means_liquidation(
    group: &CypherGroup,
    user: &CypherUser,
    replies: Seq<Reply>,
)
    requires
        up_for_liquidation(group, user),
        forall|i: int|
            0 <= i < user.listed_c_assets@.len() ==> #[trigger] passed_over(
                group,
                user,
                replies,
                i,
            ),
    ensures
        check_outcome(group, user, replies) == Some(plain_check(true)),
{
    lemma_passed_over(group, user, replies, 0, user.listed_c_assets@.len() as int);
}

/// What a check says goes together: it names orders exactly where there are orders to cancel,
/// where there is anything to cancel or settle first it names a market and token of the group,
/// and a user that is not to be liquidated has neither.
pub proof fn law_check_goes_together(group: &CypherGroup, user: &CypherUser, replies: Seq<Reply>)
    requires
        check_outcome(group, user, replies) is Some,
    ensures
        check_goes_together(group, check_outcome(group, user, replies)->Some_0),
{
    if up_for_liquidation(group, user) {
        lemma_check_goes_together(group, user, replies, 0);
    }
}

/// See [`law_check_goes_together`].
pub open spec fn check_goes_together(group: &CypherGroup, check: CheckView) -> bool {
    &&& check.open_orders <==> check.orders.len() > 0
    &&& check.open_orders || check.unsettled_funds ==> check.can_liquidate && check.market_index
        < group.markets@.len() && check.market_index < group.tokens@.len()
    &&& !check.can_liquidate ==> check == plain_check(false)
}

proof fn lemma_check_goes_together(
    group: &CypherGroup,
    user: &CypherUser,
    replies: Seq<Reply>,
    from: int,
)
    requires
        check_from(group, user, replies, from) is Some,
    ensures
        check_goes_together(group, check_from(group, user, replies, from)->Some_0),
    decreases user.listed_c_assets@.len() - from,
{
    if 0 <= from < user.listed_c_assets@.len() && passed_over(group, user, replies, from) {
        lemma_check_goes_together(group, user, replies, from + 1);
    }
}

/// A check over the accounts themselves. There is none where the margin ratio of the user is not
/// known, and a user whose ratio is not below the maintenance ratio of the group is left alone.
pub proof fn law_check_compares_with_maintenance(
    group: &CypherGroup,
    user: &CypherUser,
    replies: Seq<Reply>,
)
    ensures
        user.margin_c_ratio is None ==> check_outcome(group, user, replies) is None,
        user.margin_c_ratio is Some && user.margin_c_ratio->Some_0@ >= group.margin_maint_ratio@
            ==> {
            let check = check_outcome(group, user, replies);
            &&& check is Some
            &&& !check->Some_0.can_liquidate
            &&& !check->Some_0.open_orders && !check->Some_0.unsettled_funds
            &&& check->Some_0.open_orders_pubkey == null_key()
            &&& check->Some_0.market_index == 0 && check->Some_0.orders.len() == 0
        },
        user.margin_c_ratio is Some && user.margin_c_ratio->Some_0@ < group.margin_maint_ratio@
            && (user.is_bankrupt is None || group.quote_token_idx >= user.positions@.len()
            || user.positions@[group.quote_token_idx as int] is None) ==> check_outcome(
            group,
            user,
            replies,
        ) is None,
{
}

/// A check of a user below the maintenance ratio, over the accounts themselves. It passes over
/// listed assets whose account is not open or whose token the user has no position in, and over
/// fetched ones from which nothing is withheld. Coins are withheld where the user has borrowed
/// the token and there are any in the market, free or not; quote tokens where the user has
/// borrowed the quote token and there are any. At the first asset that is not passed over the
/// check ends: without an outcome where the market is not one of the group or the account does
/// not agree with itself, with the liquidation called off where the account could not be fetched,
/// and otherwise with the market, the account's address and all its open orders, the funds being
/// unsettled where some are free. Where all assets are passed over the user is to be liquidated.
pub proof fn law_check_ends_at_first_withheld_asset(
    group: &CypherGroup,
    user: &CypherUser,
    replies: Seq<Reply>,
    i: int,
)
    requires
        user.margin_c_ratio is Some,
        user.margin_c_ratio->Some_0@ < group.margin_maint_ratio@,
        user.is_bankrupt is Some,
        ({
            let at = |idx: int|
                if 0 <= idx < user.positions@.len() {
                    user.positions@[idx]
                } else {
                    None
                };
            let quote = at(group.quote_token_idx as int);
            let opened = |j: int|
                user.listed_c_assets@[j].oo_info.is_account_open;
            let in_group = |j: int|
                user.listed_c_assets@[j].market_idx < group.markets@.len()
                    && user.listed_c_assets@[j].market_idx < group.tokens@.len();
            let position = |j: int| at(user.listed_c_assets@[j].market_idx as int);
            let coin = |j: int|
                position(j)->Some_0.base_borrows@ > 0
                    && user.listed_c_assets@[j].oo_info.coin_total != 0;
            let pc = |j: int|
                quote->Some_0.base_borrows@ > 0 && user.listed_c_assets@[j].oo_info.pc_total
                    != 0;
            &&& quote is Some
            &&& 0 <= i <= user.listed_c_assets@.len()
            &&& forall|j: int|
                #![trigger user.listed_c_assets@[j]]
                0 <= j < i && opened(j) ==> in_group(j) && (position(j) is Some ==> replies[j] is Some
                    && replies[j]->Some_0.1.slots_agree() && !coin(j) && !pc(j))
        }),
    ensures
        ({
            let at = |idx: int|
                if 0 <= idx < user.positions@.len() {
                    user.positions@[idx]
                } else {
                    None
                };
            let quote = at(group.quote_token_idx as int);
            let opened = |j: int|
                user.listed_c_assets@[j].oo_info.is_account_open;
            let in_group = |j: int|
                user.listed_c_assets@[j].market_idx < group.markets@.len()
                    && user.listed_c_assets@[j].market_idx < group.tokens@.len();
            let position = |j: int| at(user.listed_c_assets@[j].market_idx as int);
            let coin = |j: int|
                position(j)->Some_0.base_borrows@ > 0
                    && user.listed_c_assets@[j].oo_info.coin_total != 0;
            let pc = |j: int|
                quote->Some_0.base_borrows@ > 0 && user.listed_c_assets@[j].oo_info.pc_total
                    != 0;
            let check = check_outcome(group, user, replies);
            let reply = replies[i];
            let info = user.listed_c_assets@[i].oo_info;
            if i == user.listed_c_assets@.len() {
                &&& check is Some && check->Some_0.can_liquidate
                &&& !check->Some_0.open_orders && !check->Some_0.unsettled_funds
                &&& check->Some_0.open_orders_pubkey == null_key()
                &&& check->Some_0.market_index == 0 && check->Some_0.orders.len() == 0
            } else {
                &&& opened(i) && !in_group(i) ==> check is None
                &&& opened(i) && in_group(i) && position(i) is Some && reply is None ==> {
                    &&& check is Some && !check->Some_0.can_liquidate
                    &&& !check->Some_0.open_orders && !check->Some_0.unsettled_funds
                    &&& check->Some_0.open_orders_pubkey == null_key()
                    &&& check->Some_0.market_index == 0 && check->Some_0.orders.len() == 0
                }
                &&& opened(i) && in_group(i) && position(i) is Some && reply is Some
                    && !reply->Some_0.1.slots_agree() ==> check is None
                &&& opened(i) && in_group(i) && position(i) is Some && reply is Some
                    && reply->Some_0.1.slots_agree() && (coin(i) || pc(i)) ==> {
                    &&& check is Some && check->Some_0.can_liquidate
                    &&& check->Some_0.orders == reply->Some_0.1.open_orders()
                    &&& check->Some_0.open_orders <==> reply->Some_0.1.open_orders().len() > 0
                    &&& check->Some_0.market_index == user.listed_c_assets@[i].market_idx
                    &&& check->Some_0.open_orders_pubkey == reply->Some_0.0@
                    &&& coin(i) ==> (check->Some_0.unsettled_funds <==> info.coin_free != 0)
                    &&& !coin(i) ==> (check->Some_0.unsettled_funds <==> info.pc_free != 0)
                }
            }
        }),
{
    assert forall|j: int| 0 <= j < i implies #[trigger] passed_over(group, user, replies, j) by {
        assert(user.listed_c_assets@[j] == user.listed_c_assets@[j]);
    }
    lemma_passed_over(group, user, replies, 0, i);
}

/// The values of a check are its fields.
pub proof fn law_check_is_its_fields(check: &LiquidationCheck)
    ensures
        check@.can_liquidate == check.can_liquidate,
        check@.open_orders == check.open_orders,
        check@.unsettled_funds == check.unsettled_funds,
        check@.open_orders_pubkey == check.open_orders_pubkey@,
        check@.market_index == check.market_index,
        check@.orders == check.orders@,
{
}

} // verus!
