//! What the liquidator reads of the on-chain accounts.
//!
//! The values of these types are snapshots: a caller that holds the accounts fills them in,
//! a field of type `Option` being `None` where the accounts yield no such value.
use vstd::prelude::*;

use crate::number::Number;
use crate::pubkey::Pubkey;

verus! {

/// A token of a group.
#[derive(Clone, Copy, Debug, PartialEq, Eq)]
pub struct CypherToken {
    pub mint: Pubkey,
    pub vault: Pubkey,
}

/// A market of a group.
#[derive(Clone, Copy, Debug, PartialEq, Eq)]
pub struct CypherMarket {
    pub dex_market: Pubkey,
    pub minting_rounds: Pubkey,
    pub market_price: u64,
    pub insurance_fund: u64,
    pub mint_maint_ratio: Number,
    pub mint_partial_ratio: Number,
    /// The oracle price at the slot of the snapshot.
    pub oracle_price: Option<u64>,
}

/// A group of tokens and markets with its margin rules.
#[derive(Clone, Debug, PartialEq, Eq)]
pub struct CypherGroup {
    pub self_address: Pubkey,
    pub vault_signer: Pubkey,
    pub quote_vault: Pubkey,
    pub quote_mint: Pubkey,
    pub quote_token_idx: usize,
    pub margin_init_ratio: Number,
    pub margin_maint_ratio: Number,
    pub liq_liqor_fee: Number,
    pub liq_insurance_fee: Number,
    pub insurance_fund: u64,
    pub tokens: Vec<CypherToken>,
    pub markets: Vec<CypherMarket>,
}

/// What a user has deposited and borrowed of one token.
#[derive(Clone, Copy, Debug, PartialEq, Eq)]
pub struct CypherPosition {
    pub base_borrows: Number,
    pub total_borrows: Number,
    pub total_deposits: Number,
}

/// What a user has in the open orders account of a market.
#[derive(Clone, Copy, Debug, PartialEq, Eq)]
pub struct OpenOrdersInfo {
    pub is_account_open: bool,
    pub coin_free: u64,
    pub coin_total: u64,
    pub pc_free: u64,
    pub pc_total: u64,
}

/// What a user has minted of one synthetic asset.
#[derive(Clone, Copy, Debug, PartialEq, Eq)]
pub struct CypherCAsset {
    pub market_idx: usize,
    pub oo_info: OpenOrdersInfo,
    pub collateral: u64,
    pub debt_shares: u64,
    /// The collateral ratio of the minted amount at the slot of the snapshot, asked for with
    /// the program's flag set.
    pub mint_c_ratio_flagged: Option<Number>,
    /// The same ratio, asked for with the flag clear.
    pub mint_c_ratio_unflagged: Option<Number>,
}

/// A user of a group.
#[derive(Clone, Debug, PartialEq, Eq)]
pub struct CypherUser {
    pub user_signer: Pubkey,
    pub margin_c_ratio: Option<Number>,
    pub is_bankrupt: Option<bool>,
    pub assets_value: Option<Number>,
    pub liabs_value: Option<Number>,
    /// The position in each token, by token index.
    pub positions: Vec<Option<CypherPosition>>,
    /// The synthetic asset of each market, by market index.
    pub c_assets: Vec<Option<CypherCAsset>>,
    /// The synthetic assets in the order in which the account lists them.
    pub listed_c_assets: Vec<CypherCAsset>,
}

/// The index of the first token with a mint at or after an index.
pub open spec fn token_idx_from(tokens: Seq<CypherToken>, mint: Seq<u8>, from: int) -> Option<int>
    decreases tokens.len() - from,
{
    if from < 0 || from >= tokens.len() {
        None
    } else if tokens[from].mint@ == mint {
        Some(from)
    } else {
        token_idx_from(tokens, mint, from + 1)
    }
}

proof fn lemma_token_idx_from(tokens: Seq<CypherToken>, mint: Seq<u8>, from: int)
    requires
        0 <= from <= tokens.len(),
    ensures
        match token_idx_from(tokens, mint, from) {
            Some(i) => {
                &&& from <= i < tokens.len()
                &&& tokens[i].mint@ == mint
                &&& forall|j: int| from <= j < i ==> (#[trigger] tokens[j]).mint@ != mint
            },
            None => forall|j: int|
                from <= j < tokens.len() ==> (#[trigger] tokens[j]).mint@ != mint,
        },
    decreases tokens.len() - from,
{
    if from < tokens.len() && tokens[from].mint@ != mint {
        lemma_token_idx_from(tokens, mint, from + 1);
    }
}

/// The index of a mint is that of a token with the mint and no token before it has the mint;
/// there is none exactly where no token has the mint.
pub proof fn law_token_idx_is_first(group: &CypherGroup, mint: Seq<u8>, idx: int)
    ensures
        group.token_idx(mint) == Some(idx) <==> {
            &&& 0 <= idx < group.tokens@.len()
            &&& group.tokens@[idx].mint@ == mint
            &&& forall|j: int| 0 <= j < idx ==> (#[trigger] group.tokens@[j]).mint@ != mint
        },
        group.token_idx(mint) is None <==> forall|j: int|
            0 <= j < group.tokens@.len() ==> (#[trigger] group.tokens@[j]).mint@ != mint,
{
    lemma_token_idx_from(group.tokens@, mint, 0);
    if group.token_idx(mint) is Some {
        let i = group.token_idx(mint)->Some_0;
        assert(group.tokens@[i].mint@ == mint);
    }
}

impl CypherGroup {
    /// The index of the first token with a mint.
    pub open spec fn token_idx(&self, mint: Seq<u8>) -> Option<int> {
        token_idx_from(self.tokens@, mint, 0)
    }

    pub fn get_token_idx(&self, mint: &Pubkey) -> (r: Option<usize>)
        ensures
            r is Some <==> self.token_idx(mint@) is Some,
            r is Some ==> r->Some_0 == self.token_idx(mint@)->Some_0,
            r is Some ==> r->Some_0 < self.tokens@.len(),
    {
        let mut i: usize = 0;
        while i < self.tokens.len()
            invariant
                i <= self.tokens@.len(),
                self.token_idx(mint@) == token_idx_from(self.tokens@, mint@, i as int),
            decreases self.tokens@.len() - i,
        {
            if self.tokens[i].mint.same(mint) {
                return Some(i);
            }
            i = i + 1;
        }
        None
    }

    pub fn get_cypher_token(&self, idx: usize) -> (r: &CypherToken)
        requires
            idx < self.tokens@.len(),
        ensures
            *r == self.tokens@[idx as int],
    {
        &self.tokens[idx]
    }

    pub fn get_cypher_market(&self, idx: usize) -> (r: &CypherMarket)
        requires
            idx < self.markets@.len(),
        ensures
            *r == self.markets@[idx as int],
    {
        &self.markets[idx]
    }
}

impl CypherCAsset {
    /// The collateral ratio of the minted amount, asked for with a flag.
    pub open spec fn mint_c_ratio(&self, flag: bool) -> Option<Number> {
        if flag {
            self.mint_c_ratio_flagged
        } else {
            self.mint_c_ratio_unflagged
        }
    }

    pub fn get_mint_c_ratio(&self, flag: bool) -> (r: Option<Number>)
        ensures
            r == self.mint_c_ratio(flag),
    {
        if flag {
            self.mint_c_ratio_flagged
        } else {
            self.mint_c_ratio_unflagged
        }
    }
}

impl CypherUser {
    /// The position at a token index.
    pub open spec fn position(&self, idx: int) -> Option<CypherPosition> {
        if 0 <= idx < self.positions@.len() {
            self.positions@[idx]
        } else {
            None
        }
    }

    /// The synthetic asset at a market index.
    pub open spec fn c_asset(&self, idx: int) -> Option<CypherCAsset> {
        if 0 <= idx < self.c_assets@.len() {
            self.c_assets@[idx]
        } else {
            None
        }
    }

    pub fn get_position(&self, idx: usize) -> (r: Option<CypherPosition>)
        ensures
            r == self.position(idx as int),
    {
        if idx < self.positions.len() {
            self.positions[idx]
        } else {
            None
        }
    }

    pub fn get_c_asset(&self, idx: usize) -> (r: Option<CypherCAsset>)
        ensures
            r == self.c_asset(idx as int),
    {
        if idx < self.c_assets.len() {
            self.c_assets[idx]
        } else {
            None
        }
    }
}

} // verus!
