//! The choice of the tokens that a liquidation trades.
use vstd::prelude::*;

use crate::config::cypher_config::CypherTokenConfig;
use crate::number::Number;
use crate::pubkey::{null_key, Pubkey};
use crate::states::{CypherGroup, CypherUser};

verus! {

/// Whether every configured token is one of the group.
pub open spec fn tokens_in_group(tokens: Seq<CypherTokenConfig>, group: &CypherGroup) -> bool {
    forall|i: int|
        0 <= i < tokens.len() ==> (#[trigger] tokens[i]).token_index < group.tokens@.len()
}

/// What a user has borrowed of a token.
pub open spec fn borrows_of(user: &CypherUser, token_index: usize) -> nat {
    match user.position(token_index as int) {
        Some(position) => position.total_borrows@,
        None => 0,
    }
}

/// What a user has deposited of a token.
pub open spec fn deposits_of(user: &CypherUser, token_index: usize) -> nat {
    match user.position(token_index as int) {
        Some(position) => position.total_deposits@,
        None => 0,
    }
}

/// Whether the liquidator can repay all that a user has borrowed of a token.
pub open spec fn repayable(liqor: &CypherUser, liqee: &CypherUser, token_index: usize) -> bool {
    borrows_of(liqee, token_index) <= deposits_of(liqor, token_index)
}

/// Among the first tokens, the one that the user has borrowed most of and that the liquidator
/// can repay, the last one where there are several.
pub open spec fn liab_choice(
    tokens: Seq<CypherTokenConfig>,
    liqor: &CypherUser,
    liqee: &CypherUser,
    n: int,
) -> Option<int>
    decreases n,
{
    if n <= 0 {
        None
    } else {
        let before = liab_choice(tokens, liqor, liqee, n - 1);
        let idx = tokens[n - 1].token_index;
        if repayable(liqor, liqee, idx) && (before is None || borrows_of(
            liqee,
            tokens[before->Some_0].token_index,
        ) <= borrows_of(liqee, idx)) {
            Some(n - 1)
        } else {
            before
        }
    }
}

/// Among the first tokens, the one that the user has deposited most of, the last one where
/// there are several.
pub open spec fn asset_choice(tokens: Seq<CypherTokenConfig>, liqee: &CypherUser, n: int) -> Option<
    int,
>
    decreases n,
{
    if n <= 0 {
        None
    } else {
        let before = asset_choice(tokens, liqee, n - 1);
        let idx = tokens[n - 1].token_index;
        if before is None || deposits_of(liqee, tokens[before->Some_0].token_index) <= deposits_of(
            liqee,
            idx,
        ) {
            Some(n - 1)
        } else {
            before
        }
    }
}

/// The mint of a chosen token, or no account where none is chosen.
pub open spec fn chosen_mint(
    tokens: Seq<CypherTokenConfig>,
    group: &CypherGroup,
    choice: Option<int>,
) -> Seq<u8> {
    match choice {
        Some(i) => group.tokens@[tokens[i].token_index as int].mint@,
        None => null_key(),
    }
}

/// The mint of the asset to take.
pub open spec fn asset_mint_choice(
    tokens: Seq<CypherTokenConfig>,
    group: &CypherGroup,
    liqee: &CypherUser,
) -> Seq<u8> {
    chosen_mint(tokens, group, asset_choice(tokens, liqee, tokens.len() as int))
}

/// The mint of the liability to repay.
pub open spec fn liab_mint_choice(
    tokens: Seq<CypherTokenConfig>,
    group: &CypherGroup,
    liqor: &CypherUser,
    liqee: &CypherUser,
) -> Seq<u8> {
    chosen_mint(tokens, group, liab_choice(tokens, liqor, liqee, tokens.len() as int))
}

/// Whether there is both an asset to take and a liability to repay.
pub open spec fn mints_found(
    tokens: Seq<CypherTokenConfig>,
    group: &CypherGroup,
    liqor: &CypherUser,
    liqee: &CypherUser,
) -> bool {
    asset_mint_choice(tokens, group, liqee) != null_key() && liab_mint_choice(
        tokens,
        group,
        liqor,
        liqee,
    ) != null_key()
}

proof fn lemma_choice_range(
    tokens: Seq<CypherTokenConfig>,
    liqor: &CypherUser,
    liqee: &CypherUser,
    n: int,
)
    requires
        0 <= n <= tokens.len(),
    ensures
        liab_choice(tokens, liqor, liqee, n) is Some ==> 0 <= liab_choice(
            tokens,
            liqor,
            liqee,
            n,
        )->Some_0 < n,
        asset_choice(tokens, liqee, n) is Some ==> 0 <= asset_choice(tokens, liqee, n)->Some_0 < n,
        asset_choice(tokens, liqee, n) is Some <==> n > 0,
    decreases n,
{
    if n > 0 {
        lemma_choice_range(tokens, liqor, liqee, n - 1);
    }
}

/// The liability that is chosen is one that the liquidator can repay; no other such liability
/// is higher, and none that comes later is as high. None is chosen exactly where the liquidator
/// can repay none.
pub proof fn law_liab_choice_is_highest(
    tokens: Seq<CypherTokenConfig>,
    liqor: &CypherUser,
    liqee: &CypherUser,
    n: int,
)
    requires
        0 <= n <= tokens.len(),
    ensures
        liab_choice(tokens, liqor, liqee, n) is None <==> forall|i: int|
            0 <= i < n ==> !repayable(liqor, liqee, (#[trigger] tokens[i]).token_index),
        liab_choice(tokens, liqor, liqee, n) is Some ==> {
            let c = liab_choice(tokens, liqor, liqee, n)->Some_0;
            &&& 0 <= c < n
            &&& repayable(liqor, liqee, tokens[c].token_index)
            &&& forall|i: int|
                0 <= i < n && repayable(liqor, liqee, (#[trigger] tokens[i]).token_index)
                    ==> borrows_of(liqee, tokens[i].token_index) <= borrows_of(
                    liqee,
                    tokens[c].token_index,
                )
            &&& forall|i: int|
                c < i < n && repayable(liqor, liqee, (#[trigger] tokens[i]).token_index)
                    ==> borrows_of(liqee, tokens[i].token_index) < borrows_of(
                    liqee,
                    tokens[c].token_index,
                )
        },
    decreases n,
{
    if n > 0 {
        law_liab_choice_is_highest(tokens, liqor, liqee, n - 1);
        if liab_choice(tokens, liqor, liqee, n) is None {
            assert forall|i: int| 0 <= i < n implies !repayable(
                liqor,
                liqee,
                (#[trigger] tokens[i]).token_index,
            ) by {}
        } else if liab_choice(tokens, liqor, liqee, n - 1) is None {
            assert(repayable(liqor, liqee, tokens[n - 1].token_index));
        }
    }
}

/// No deposit is higher than that of the asset that is chosen, and none that comes later is as
/// high. One is chosen wherever there are tokens.
pub proof fn law_asset_choice_is_highest(
    tokens: Seq<CypherTokenConfig>,
    liqee: &CypherUser,
    n: int,
)
    requires
        0 < n <= tokens.len(),
    ensures
        asset_choice(tokens, liqee, n) is Some,
        ({
            let c = asset_choice(tokens, liqee, n)->Some_0;
            &&& 0 <= c < n
            &&& forall|i: int|
                0 <= i < n ==> deposits_of(liqee, (#[trigger] tokens[i]).token_index)
                    <= deposits_of(liqee, tokens[c].token_index)
            &&& forall|i: int|
                c < i < n ==> deposits_of(liqee, (#[trigger] tokens[i]).token_index) < deposits_of(
                    liqee,
                    tokens[c].token_index,
                )
        }),
    decreases n,
{
    assert(asset_choice(tokens, liqee, 0) is None);
    if n > 1 {
        law_asset_choice_is_highest(tokens, liqee, n - 1);
    }
}

/// The liability to repay is the token of which the total borrows of the user are highest among
/// those whose total borrows the total deposits of the liquidator cover, the last of equals.
pub proof fn law_liability_has_highest_total_borrows(
    tokens: Seq<CypherTokenConfig>,
    group: &CypherGroup,
    liqor: &CypherUser,
    liqee: &CypherUser,
    c: int,
)
    requires
        ({
            let owed = |i: int|
                {
                    let idx = tokens[i].token_index as int;
                    if idx < liqee.positions@.len() && liqee.positions@[idx] is Some {
                        liqee.positions@[idx]->Some_0.total_borrows@
                    } else {
                        0
                    }
                };
            let held = |i: int|
                {
                    let idx = tokens[i].token_index as int;
                    if idx < liqor.positions@.len() && liqor.positions@[idx] is Some {
                        liqor.positions@[idx]->Some_0.total_deposits@
                    } else {
                        0
                    }
                };
            &&& 0 <= c < tokens.len()
            &&& owed(c) <= held(c)
            &&& forall|i: int|
                #![trigger tokens[i]]
                0 <= i < tokens.len() && owed(i) <= held(i) ==> owed(i) <= owed(c)
            &&& forall|i: int|
                #![trigger tokens[i]]
                c < i < tokens.len() && owed(i) <= held(i) ==> owed(i) < owed(c)
        }),
    ensures
        liab_mint_choice(tokens, group, liqor, liqee) == group.tokens@[tokens[c].token_index
            as int].mint@,
{
    law_liab_choice_is_highest(tokens, liqor, liqee, tokens.len() as int);
    let chosen = liab_choice(tokens, liqor, liqee, tokens.len() as int);
    assert(repayable(liqor, liqee, tokens[c].token_index));
    assert(chosen is Some);
    assert(repayable(liqor, liqee, tokens[chosen->Some_0].token_index));
}

/// Where the total deposits of the liquidator cover the total borrows of no token, there is no
/// liability to repay.
pub proof fn law_no_liability_without_cover(
    tokens: Seq<CypherTokenConfig>,
    group: &CypherGroup,
    liqor: &CypherUser,
    liqee: &CypherUser,
)
    requires
        ({
            let owed = |i: int|
                {
                    let idx = tokens[i].token_index as int;
                    if idx < liqee.positions@.len() && liqee.positions@[idx] is Some {
                        liqee.positions@[idx]->Some_0.total_borrows@
                    } else {
                        0
                    }
                };
            let held = |i: int|
                {
                    let idx = tokens[i].token_index as int;
                    if idx < liqor.positions@.len() && liqor.positions@[idx] is Some {
                        liqor.positions@[idx]->Some_0.total_deposits@
                    } else {
                        0
                    }
                };
            forall|i: int|
                #![trigger tokens[i]]
                0 <= i < tokens.len() ==> owed(i) > held(i)
        }),
    ensures
        liab_mint_choice(tokens, group, liqor, liqee) == null_key(),
        !mints_found(tokens, group, liqor, liqee),
{
    law_liab_choice_is_highest(tokens, liqor, liqee, tokens.len() as int);
}

/// The asset to take is the token of which the total deposits of the user are highest, the last
/// of equals.
pub proof fn law_asset_has_highest_total_deposits(
    tokens: Seq<CypherTokenConfig>,
    group: &CypherGroup,
    liqee: &CypherUser,
    c: int,
)
    requires
        ({
            let deposited = |i: int|
                {
                    let idx = tokens[i].token_index as int;
                    if idx < liqee.positions@.len() && liqee.positions@[idx] is Some {
                        liqee.positions@[idx]->Some_0.total_deposits@
                    } else {
                        0
                    }
                };
            &&& 0 <= c < tokens.len()
            &&& forall|i: int|
                #![trigger tokens[i]]
                0 <= i < tokens.len() ==> deposited(i) <= deposited(c)
            &&& forall|i: int|
                #![trigger tokens[i]]
                c < i < tokens.len() ==> deposited(i) < deposited(c)
        }),
    ensures
        asset_mint_choice(tokens, group, liqee) == group.tokens@[tokens[c].token_index as int].mint@,
{
    law_asset_choice_is_highest(tokens, liqee, tokens.len() as int);
    let chosen = asset_choice(tokens, liqee, tokens.len() as int)->Some_0;
    assert(tokens[chosen].token_index == tokens[chosen].token_index);
}

/// There is something to liquidate exactly where neither mint is 32 zero bytes; without tokens
/// there is neither an asset nor a liability.
pub proof fn law_both_mints_are_accounts(
    tokens: Seq<CypherTokenConfig>,
    group: &CypherGroup,
    liqor: &CypherUser,
    liqee: &CypherUser,
)
    ensures
        mints_found(tokens, group, liqor, liqee) <==> asset_mint_choice(tokens, group, liqee)
            != Seq::new(32, |i: int| 0u8) && liab_mint_choice(tokens, group, liqor, liqee)
            != Seq::new(32, |i: int| 0u8),
        tokens.len() == 0 ==> !mints_found(tokens, group, liqor, liqee),
{
    assert(null_key() =~= Seq::new(32, |i: int| 0u8));
}

/// The asset to take and the liability to repay, with whether there are both; where there are
/// not, no account stands for either.
pub fn get_asset_and_liab_mint(
    tokens: &Vec<CypherTokenConfig>,
    cypher_group: &CypherGroup,
    liqor_user: &CypherUser,
    liqee_user: &CypherUser,
) -> (r: (bool, Pubkey, Pubkey))
    requires
        tokens_in_group(tokens@, cypher_group),
    ensures
        r.0 == mints_found(tokens@, cypher_group, liqor_user, liqee_user),
        r.0 ==> r.1@ == asset_mint_choice(tokens@, cypher_group, liqee_user),
        r.0 ==> r.2@ == liab_mint_choice(tokens@, cypher_group, liqor_user, liqee_user),
        !r.0 ==> r.1@ == null_key() && r.2@ == null_key(),
{
    let mut highest_borrow = Number::zero();
    let mut highest_deposit = Number::zero();
    let mut asset_mint = Pubkey::default();
    let mut liab_mint = Pubkey::default();
    let mut n: usize = 0;
    while n < tokens.len()
        invariant
            n <= tokens@.len(),
            tokens_in_group(tokens@, cypher_group),
            asset_mint@ == chosen_mint(
                tokens@,
                cypher_group,
                asset_choice(tokens@, liqee_user, n as int),
            ),
            liab_mint@ == chosen_mint(
                tokens@,
                cypher_group,
                liab_choice(tokens@, liqor_user, liqee_user, n as int),
            ),
            highest_borrow@ == match liab_choice(tokens@, liqor_user, liqee_user, n as int) {
                Some(i) => borrows_of(liqee_user, tokens@[i].token_index),
                None => 0,
            },
            highest_deposit@ == match asset_choice(tokens@, liqee_user, n as int) {
                Some(i) => deposits_of(liqee_user, tokens@[i].token_index),
                None => 0,
            },
        decreases tokens@.len() - n,
    {
        let token_index: usize = tokens[n].token_index;
        proof {
            lemma_choice_range(tokens@, liqor_user, liqee_user, n as int);
        }
        let cypher_token = cypher_group.get_cypher_token(token_index);
        let (liqee_borrows, liqee_deposits) = match liqee_user.get_position(token_index) {
            Some(position) => (position.total_borrows, position.total_deposits),
            None => (Number::zero(), Number::zero()),
        };
        let liqor_deposits = match liqor_user.get_position(token_index) {
            Some(position) => position.total_deposits,
            None => Number::zero(),
        };
        if highest_borrow.at_most(liqee_borrows) && liqee_borrows.at_most(liqor_deposits) {
            highest_borrow = liqee_borrows;
            liab_mint = cypher_token.mint;
        }
        if highest_deposit.at_most(liqee_deposits) {
            highest_deposit = liqee_deposits;
            asset_mint = cypher_token.mint;
        }
        n = n + 1;
    }
    if !asset_mint.is_null() && !liab_mint.is_null() {
        return (true, asset_mint, liab_mint);
    }
    (false, Pubkey::default(), Pubkey::default())
}

} // verus!
