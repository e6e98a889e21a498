//! Open orders, account data, derived addresses, and what the instructions are made of.
use vstd::prelude::*;

use crate::pubkey::{find_program_address, program_address, Pubkey};
use crate::states::{CypherGroup, CypherMarket, CypherToken};

verus! {

/// The side of an order.
#[derive(Clone, Copy, Debug, PartialEq, Eq, Structural)]
pub enum Side {
    Bid,
    Ask,
}

/// What an open orders account says of its slots.
#[derive(Clone, Debug, PartialEq, Eq)]
pub struct OpenOrders {
    pub free_slot_bits: u128,
    pub is_bid_bits: u128,
    pub orders: [u128; 128],
}

/// An order that is open.
#[derive(Clone, Copy, Debug, PartialEq, Eq)]
pub struct OpenOrder {
    pub order_id: u128,
    pub side: Side,
}

/// Whether the bit of a slot is set.
pub open spec fn slot_bit(bits: u128, slot: u8) -> bool {
    bits & (1u128 << slot) != 0
}

/// The side of the order in a slot: a free slot has none.
pub open spec fn side_of_slot(free_slot_bits: u128, is_bid_bits: u128, slot: u8) -> Option<Side> {
    if slot_bit(free_slot_bits, slot) {
        None
    } else if slot_bit(is_bid_bits, slot) {
        Some(Side::Bid)
    } else {
        Some(Side::Ask)
    }
}

/// `serum_dex::state::OpenOrders::slot_side` of an account with the given bits: nothing for a
/// free slot, else the side that the bit of the slot says.
#[verifier::external_body]
fn slot_side(free_slot_bits: u128, is_bid_bits: u128, slot: u8) -> (r: Option<Side>)
    requires
        slot < 128,
    ensures
        r == side_of_slot(free_slot_bits, is_bid_bits, slot),
{
    let mut account: serum_dex::state::OpenOrders = bytemuck::Zeroable::zeroed();
    account.free_slot_bits = free_slot_bits;
    account.is_bid_bits = is_bid_bits;
    match account.slot_side(slot) {
        Some(serum_dex::matching::Side::Bid) => Some(Side::Bid),
        Some(serum_dex::matching::Side::Ask) => Some(Side::Ask),
        None => None,
    }
}

impl OpenOrders {
    /// Whether every slot that holds an order is taken.
    pub open spec fn slots_agree(&self) -> bool {
        forall|i: int|
            0 <= i < 128 && #[trigger] self.orders@[i] != 0 ==> !slot_bit(
                self.free_slot_bits,
                i as u8,
            )
    }

    /// The order in a slot.
    pub open spec fn order_at(&self, slot: int) -> OpenOrder {
        OpenOrder {
            order_id: self.orders@[slot],
            side: side_of_slot(self.free_slot_bits, self.is_bid_bits, slot as u8)->Some_0,
        }
    }

    /// The orders in the slots before a slot.
    pub open spec fn orders_before(&self, slot: int) -> Seq<OpenOrder>
        decreases slot,
    {
        if slot <= 0 {
            seq![]
        } else if self.orders@[slot - 1] != 0 {
            self.orders_before(slot - 1).push(self.order_at(slot - 1))
        } else {
            self.orders_before(slot - 1)
        }
    }

    /// The orders in all slots.
    pub open spec fn open_orders(&self) -> Seq<OpenOrder> {
        self.orders_before(128)
    }
}

/// The open orders of an account, or nothing where a free slot holds an order.
pub fn try_get_open_orders(open_orders: &OpenOrders) -> (r: Option<Vec<OpenOrder>>)
    ensures
        r is Some <==> open_orders.slots_agree(),
        r is Some ==> r->Some_0@ == open_orders.open_orders(),
{
    let mut oo: Vec<OpenOrder> = Vec::new();
    let mut i: usize = 0;
    while i < 128
        invariant
            i <= 128,
            oo@ == open_orders.orders_before(i as int),
            forall|j: int|
                0 <= j < i && #[trigger] open_orders.orders@[j] != 0 ==> !slot_bit(
                    open_orders.free_slot_bits,
                    j as u8,
                ),
        decreases 128 - i,
    {
        let order_id: u128 = open_orders.orders[i];
        if order_id != 0 {
            match slot_side(open_orders.free_slot_bits, open_orders.is_bid_bits, i as u8) {
                Some(side) => {
                    oo.push(OpenOrder { order_id, side });
                },
                None => {
                    assert(open_orders.orders@[i as int] != 0);
                    return None;
                },
            }
        }
        i = i + 1;
    }
    Some(oo)
}

/// The open orders of an account.
pub fn get_open_orders(open_orders: &OpenOrders) -> (r: Vec<OpenOrder>)
    requires
        open_orders.slots_agree(),
    ensures
        r@ == open_orders.open_orders(),
{
    try_get_open_orders(open_orders).unwrap()
}

/// The open orders are exactly those in the slots that hold an order, and none is missing.
pub proof fn law_open_orders_are_the_slots(open_orders: &OpenOrders)
    ensures
        forall|i: int|
            0 <= i < 128 && #[trigger] open_orders.orders@[i] != 0
                ==> open_orders.open_orders().contains(open_orders.order_at(i)),
        forall|k: int|
            0 <= k < open_orders.open_orders().len() ==> exists|i: int|
                0 <= i < 128 && open_orders.orders@[i] != 0
                    && #[trigger] open_orders.open_orders()[k] == #[trigger] open_orders.order_at(i),
{
    lemma_orders_before(open_orders, 128);
}

proof fn lemma_orders_before(open_orders: &OpenOrders, slot: int)
    requires
        0 <= slot <= 128,
    ensures
        forall|i: int|
            0 <= i < slot && #[trigger] open_orders.orders@[i] != 0 ==> open_orders.orders_before(
                slot,
            ).contains(open_orders.order_at(i)),
        forall|k: int|
            0 <= k < open_orders.orders_before(slot).len() ==> exists|i: int|
                0 <= i < slot && open_orders.orders@[i] != 0
                    && #[trigger] open_orders.orders_before(slot)[k]
                    == #[trigger] open_orders.order_at(i),
    decreases slot,
{
    if slot > 0 {
        lemma_orders_before(open_orders, slot - 1);
        let before = open_orders.orders_before(slot - 1);
        let now = open_orders.orders_before(slot);
        assert forall|i: int|
            0 <= i < slot && #[trigger] open_orders.orders@[i] != 0 implies now.contains(
            open_orders.order_at(i),
        ) by {
            if i == slot - 1 {
                assert(now[now.len() - 1] == open_orders.order_at(i));
            } else {
                let k = choose|k: int|
                    0 <= k < before.len() && before[k] == open_orders.order_at(i);
                assert(now[k] == open_orders.order_at(i));
            }
        }
        assert forall|k: int| 0 <= k < now.len() implies exists|i: int|
            0 <= i < slot && open_orders.orders@[i] != 0 && #[trigger] now[k]
                == #[trigger] open_orders.order_at(i) by {
            if k < before.len() {
                assert(now[k] == before[k]);
            } else {
                assert(now[k] == open_orders.order_at(slot - 1));
            }
        }
    }
}

/// An account agrees with itself exactly where no slot that holds an order is marked as free.
pub proof fn law_no_order_in_a_free_slot(open_orders: &OpenOrders)
    ensures
        open_orders.slots_agree() <==> forall|i: int|
            0 <= i < 128 && #[trigger] open_orders.orders@[i] != 0 ==> open_orders.free_slot_bits
                & (1u128 << (i as u8)) == 0,
{
}

/// The open orders come from the slots that hold an order, in the order of the slots, each with
/// the number that the slot holds and on the side that its bit says; none is left out. The slots
/// are what is returned.
pub proof fn law_open_orders_follow_the_slots(open_orders: &OpenOrders) -> (slots: Seq<int>)
    requires
        open_orders.slots_agree(),
    ensures
        slots.len() == open_orders.open_orders().len(),
        forall|k: int|
            #![trigger slots[k]]
            0 <= k < slots.len() ==> {
                &&& 0 <= slots[k] < 128
                &&& open_orders.orders@[slots[k]] != 0
                &&& open_orders.open_orders()[k].order_id == open_orders.orders@[slots[k]]
                &&& open_orders.open_orders()[k].side == if open_orders.is_bid_bits & (1u128
                    << (slots[k] as u8)) != 0 {
                    Side::Bid
                } else {
                    Side::Ask
                }
            },
        forall|k: int, l: int| 0 <= k < l < slots.len() ==> slots[k] < slots[l],
        forall|i: int|
            0 <= i < 128 && #[trigger] open_orders.orders@[i] != 0 ==> slots.contains(i),
{
    lemma_slots_before(open_orders, 128)
}

proof fn lemma_slots_before(open_orders: &OpenOrders, slot: int) -> (slots: Seq<int>)
    requires
        open_orders.slots_agree(),
        0 <= slot <= 128,
    ensures
        slots.len() == open_orders.orders_before(slot).len(),
        forall|k: int|
            #![trigger slots[k]]
            0 <= k < slots.len() ==> {
                &&& 0 <= slots[k] < slot
                &&& open_orders.orders@[slots[k]] != 0
                &&& open_orders.orders_before(slot)[k] == open_orders.order_at(slots[k])
            },
        forall|k: int|
            #![trigger slots[k]]
            0 <= k < slots.len() ==> !slot_bit(open_orders.free_slot_bits, slots[k] as u8),
        forall|k: int, l: int| 0 <= k < l < slots.len() ==> slots[k] < slots[l],
        forall|i: int|
            0 <= i < slot && #[trigger] open_orders.orders@[i] != 0 ==> slots.contains(i),
    decreases slot,
{
    if slot == 0 {
        seq![]
    } else {
        let before = lemma_slots_before(open_orders, slot - 1);
        if open_orders.orders@[slot - 1] != 0 {
            let slots = before.push(slot - 1);
            assert forall|i: int|
                0 <= i < slot && #[trigger] open_orders.orders@[i] != 0 implies slots.contains(
                i,
            ) by {
                if i < slot - 1 {
                    let k = choose|k: int| 0 <= k < before.len() && before[k] == i;
                    assert(slots[k] == i);
                } else {
                    assert(slots[slots.len() - 1] == i);
                }
            }
            slots
        } else {
            before
        }
    }
}

/// Whether account data starts with a discriminator and is long enough for a body of a size.
pub open spec fn holds_account(data: Seq<u8>, discriminator: Seq<u8>, size: int) -> bool {
    &&& data.len() >= 8 + size
    &&& data.subrange(0, 8) == discriminator
}

/// Account data is told by its first eight bytes, and by being long enough.
pub proof fn law_account_is_told_by_its_first_bytes(data: Seq<u8>, discriminator: [u8; 8], size: int)
    requires
        0 <= size,
    ensures
        holds_account(data, discriminator@, size) <==> data.len() >= 8 + size && forall|i: int|
            0 <= i < 8 ==> data[i] == #[trigger] discriminator@[i],
{
    if data.len() >= 8 + size {
        let head = data.subrange(0, 8);
        assert(forall|i: int| 0 <= i < 8 ==> head[i] == data[i]);
        if forall|i: int| 0 <= i < 8 ==> data[i] == #[trigger] discriminator@[i] {
            assert(head =~= discriminator@);
        }
        if head == discriminator@ {
            assert forall|i: int| 0 <= i < 8 implies data[i] == #[trigger] discriminator@[i] by {
                assert(head[i] == data[i]);
            }
        }
    }
}

/// The body of account data behind its discriminator.
pub fn account_body(data: &Vec<u8>, discriminator: &[u8; 8], size: usize) -> (r: Option<Vec<u8>>)
    ensures
        r is Some <==> holds_account(data@, discriminator@, size as int),
        r is Some ==> r->Some_0@ == data@.subrange(8, 8 + size),
{
    if data.len() < 8 || data.len() - 8 < size {
        return None;
    }
    let mut i: usize = 0;
    while i < 8
        invariant
            i <= 8,
            data@.len() >= 8,
            forall|j: int| 0 <= j < i ==> data@[j] == discriminator@[j],
        decreases 8 - i,
    {
        if data[i] != discriminator[i] {
            assert(data@.subrange(0, 8)[i as int] != discriminator@[i as int]);
            return None;
        }
        i = i + 1;
    }
    assert(data@.subrange(0, 8) =~= discriminator@);
    let mut body: Vec<u8> = Vec::new();
    let mut k: usize = 0;
    while k < size
        invariant
            k <= size,
            8 + size <= usize::MAX,
            data@.len() >= 8 + size,
            body@ =~= data@.subrange(8, 8 + k),
        decreases size - k,
    {
        body.push(data[8 + k]);
        k = k + 1;
    }
    Some(body)
}

/// The account body of a type of a size, whose discriminator the data starts with.
pub fn get_zero_copy_account(data: &Vec<u8>, discriminator: &[u8; 8], size: usize) -> (r: Vec<u8>)
    requires
        holds_account(data@, discriminator@, size as int),
    ensures
        r@ == data@.subrange(8, 8 + size),
{
    account_body(data, discriminator, size).unwrap()
}

/// The seeds of the address of a user: a prefix, the group and the owner.
pub open spec fn user_seeds(prefix: Seq<u8>, group: Seq<u8>, owner: Seq<u8>) -> Seq<Seq<u8>> {
    seq![prefix, group, owner]
}

/// The address of the account of an owner in a group.
pub fn derive_cypher_user_address(
    prefix: &[u8],
    group_address: &Pubkey,
    owner: &Pubkey,
    program_id: &Pubkey,
) -> (r: Pubkey)
    requires
        program_address(user_seeds(prefix@, group_address@, owner@), program_id@) is Some,
    ensures
        r@ == program_address(
            user_seeds(prefix@, group_address@, owner@),
            program_id@,
        )->Some_0.0,
{
    find_program_address(
        prefix,
        group_address.bytes.as_slice(),
        owner.bytes.as_slice(),
        program_id,
    ).unwrap().0
}

/// The address of the account of an owner in a group, where the program derives one.
pub fn try_derive_cypher_user_address(
    prefix: &[u8],
    group_address: &Pubkey,
    owner: &Pubkey,
    program_id: &Pubkey,
) -> (r: Option<Pubkey>)
    ensures
        r is Some <==> program_address(
            user_seeds(prefix@, group_address@, owner@),
            program_id@,
        ) is Some,
        r is Some ==> r->Some_0@ == program_address(
            user_seeds(prefix@, group_address@, owner@),
            program_id@,
        )->Some_0.0,
{
    if find_program_address(
        prefix,
        group_address.bytes.as_slice(),
        owner.bytes.as_slice(),
        program_id,
    ).is_none() {
        return None;
    }
    Some(derive_cypher_user_address(prefix, group_address, owner, program_id))
}

/// What an instruction that liquidates collateral is made of.
#[derive(Clone, Copy, Debug, PartialEq, Eq)]
pub struct LiquidateCollateral {
    pub cypher_group: Pubkey,
    pub cypher_user: Pubkey,
    pub user_signer: Pubkey,
    pub liqee_cypher_user: Pubkey,
    pub asset_mint: Pubkey,
    pub liab_mint: Pubkey,
}

/// What an instruction that liquidates market collateral is made of.
#[derive(Clone, Copy, Debug, PartialEq, Eq)]
pub struct LiquidateMarketCollateral {
    pub cypher_group: Pubkey,
    pub vault_signer: Pubkey,
    pub minting_rounds: Pubkey,
    pub cypher_user: Pubkey,
    pub user_signer: Pubkey,
    pub liqee_cypher_user: Pubkey,
    pub c_asset_mint: Pubkey,
    pub cypher_c_asset_vault: Pubkey,
    pub token_program: Pubkey,
}

/// What the instructions need of the state of a market of the exchange.
#[derive(Clone, Copy, Debug, PartialEq, Eq)]
pub struct DexMarketState {
    pub event_q: Pubkey,
    pub bids: Pubkey,
    pub asks: Pubkey,
    pub coin_vault: Pubkey,
    pub pc_vault: Pubkey,
    /// The signer of the vaults of the market.
    pub vault_signer: Pubkey,
    /// The authority that may prune orders of the market.
    pub prune_authority: Pubkey,
}

/// What an instruction that settles funds is made of.
#[derive(Clone, Copy, Debug, PartialEq, Eq)]
pub struct SettleFunds {
    pub cypher_group: Pubkey,
    pub vault_signer: Pubkey,
    pub cypher_user: Pubkey,
    pub user_signer: Pubkey,
    pub c_asset_mint: Pubkey,
    pub cypher_c_asset_vault: Pubkey,
    pub cypher_pc_vault: Pubkey,
    pub dex_market: Pubkey,
    pub open_orders: Pubkey,
    pub dex_coin_vault: Pubkey,
    pub dex_pc_vault: Pubkey,
    pub dex_vault_signer: Pubkey,
}

/// What an instruction that cancels an order is made of.
#[derive(Clone, Copy, Debug, PartialEq, Eq)]
pub struct CancelOrder {
    pub cypher_group: Pubkey,
    pub vault_signer: Pubkey,
    pub cypher_user: Pubkey,
    pub user_signer: Pubkey,
    pub c_asset_mint: Pubkey,
    pub cypher_c_asset_vault: Pubkey,
    pub cypher_pc_vault: Pubkey,
    pub dex_market: Pubkey,
    pub prune_authority: Pubkey,
    pub open_orders: Pubkey,
    pub dex_event_queue: Pubkey,
    pub dex_bids: Pubkey,
    pub dex_asks: Pubkey,
    pub dex_coin_vault: Pubkey,
    pub dex_pc_vault: Pubkey,
    pub dex_vault_signer: Pubkey,
    pub order_id: u128,
    pub side: Side,
}

/// The bytes of the address of the token program.
pub open spec fn token_program_key() -> Seq<u8> {
    seq![
        6u8, 221, 246, 225, 215, 101, 161, 147, 217, 203, 225, 70, 206, 235, 121, 172,
        28, 180, 133, 237, 95, 91, 55, 145, 58, 140, 245, 133, 126, 255, 0, 169,
    ]
}

/// `spl_token::id`: the address of the token program.
#[verifier::external_body]
fn token_program_id() -> (r: Pubkey)
    ensures
        r@ == token_program_key(),
{
    Pubkey { bytes: spl_token::id().to_bytes() }
}

pub fn get_liquidate_collateral_ixs(
    cypher_group: &CypherGroup,
    asset_mint: &Pubkey,
    liab_mint: &Pubkey,
    liqor_pubkey: &Pubkey,
    liqee_pubkey: &Pubkey,
    signer: &Pubkey,
) -> (r: LiquidateCollateral)
    ensures
        r.cypher_group == cypher_group.self_address,
        r.cypher_user == *liqor_pubkey,
        r.user_signer == *signer,
        r.liqee_cypher_user == *liqee_pubkey,
        r.asset_mint == *asset_mint,
        r.liab_mint == *liab_mint,
{
    LiquidateCollateral {
        cypher_group: cypher_group.self_address,
        cypher_user: *liqor_pubkey,
        user_signer: *signer,
        liqee_cypher_user: *liqee_pubkey,
        asset_mint: *asset_mint,
        liab_mint: *liab_mint,
    }
}

pub fn get_liquidate_market_collateral_ixs(
    cypher_group: &CypherGroup,
    cypher_market: &CypherMarket,
    cypher_token: &CypherToken,
    liqor_pubkey: &Pubkey,
    liqee_pubkey: &Pubkey,
    signer: &Pubkey,
) -> (r: LiquidateMarketCollateral)
    ensures
        r.cypher_group == cypher_group.self_address,
        r.vault_signer == cypher_group.vault_signer,
        r.minting_rounds == cypher_market.minting_rounds,
        r.cypher_user == *liqor_pubkey,
        r.user_signer == *signer,
        r.liqee_cypher_user == *liqee_pubkey,
        r.c_asset_mint == cypher_token.mint,
        r.cypher_c_asset_vault == cypher_token.vault,
        r.token_program@ == token_program_key(),
{
    LiquidateMarketCollateral {
        cypher_group: cypher_group.self_address,
        vault_signer: cypher_group.vault_signer,
        minting_rounds: cypher_market.minting_rounds,
        cypher_user: *liqor_pubkey,
        user_signer: *signer,
        liqee_cypher_user: *liqee_pubkey,
        c_asset_mint: cypher_token.mint,
        cypher_c_asset_vault: cypher_token.vault,
        token_program: token_program_id(),
    }
}

/// What the instruction that settles the funds of a user in a market is made of.
pub open spec fn settle_funds(
    cypher_group: &CypherGroup,
    cypher_market: &CypherMarket,
    cypher_token: &CypherToken,
    dex_market_state: &DexMarketState,
    open_orders: Pubkey,
    cypher_user: Pubkey,
    signer: Pubkey,
) -> SettleFunds {
    SettleFunds {
        cypher_group: cypher_group.self_address,
        vault_signer: cypher_group.vault_signer,
        cypher_user,
        user_signer: signer,
        c_asset_mint: cypher_token.mint,
        cypher_c_asset_vault: cypher_token.vault,
        cypher_pc_vault: cypher_group.quote_vault,
        dex_market: cypher_market.dex_market,
        open_orders,
        dex_coin_vault: dex_market_state.coin_vault,
        dex_pc_vault: dex_market_state.pc_vault,
        dex_vault_signer: dex_market_state.vault_signer,
    }
}

pub fn get_settle_funds_ix(
    cypher_group: &CypherGroup,
    cypher_market: &CypherMarket,
    cypher_token: &CypherToken,
    dex_market_state: &DexMarketState,
    open_orders_pubkey: &Pubkey,
    cypher_user_pubkey: &Pubkey,
    signer: &Pubkey,
) -> (r: SettleFunds)
    ensures
        r == settle_funds(
            cypher_group,
            cypher_market,
            cypher_token,
            dex_market_state,
            *open_orders_pubkey,
            *cypher_user_pubkey,
            *signer,
        ),
{
    SettleFunds {
        cypher_group: cypher_group.self_address,
        vault_signer: cypher_group.vault_signer,
        cypher_user: *cypher_user_pubkey,
        user_signer: *signer,
        c_asset_mint: cypher_token.mint,
        cypher_c_asset_vault: cypher_token.vault,
        cypher_pc_vault: cypher_group.quote_vault,
        dex_market: cypher_market.dex_market,
        open_orders: *open_orders_pubkey,
        dex_coin_vault: dex_market_state.coin_vault,
        dex_pc_vault: dex_market_state.pc_vault,
        dex_vault_signer: dex_market_state.vault_signer,
    }
}

/// What the instruction that cancels an order of a user in a market is made of.
pub open spec fn cancel_order(
    cypher_group: &CypherGroup,
    cypher_market: &CypherMarket,
    cypher_token: &CypherToken,
    dex_market_state: &DexMarketState,
    open_orders: Pubkey,
    cypher_user: Pubkey,
    signer: Pubkey,
    order: OpenOrder,
) -> CancelOrder {
    CancelOrder {
        cypher_group: cypher_group.self_address,
        vault_signer: cypher_group.vault_signer,
        cypher_user,
        user_signer: signer,
        c_asset_mint: cypher_token.mint,
        cypher_c_asset_vault: cypher_token.vault,
        cypher_pc_vault: cypher_group.quote_vault,
        dex_market: cypher_market.dex_market,
        prune_authority: dex_market_state.prune_authority,
        open_orders,
        dex_event_queue: dex_market_state.event_q,
        dex_bids: dex_market_state.bids,
        dex_asks: dex_market_state.asks,
        dex_coin_vault: dex_market_state.coin_vault,
        dex_pc_vault: dex_market_state.pc_vault,
        dex_vault_signer: dex_market_state.vault_signer,
        order_id: order.order_id,
        side: order.side,
    }
}

pub fn get_cancel_order_ix(
    cypher_group: &CypherGroup,
    cypher_market: &CypherMarket,
    cypher_token: &CypherToken,
    dex_market_state: &DexMarketState,
    open_orders_pubkey: &Pubkey,
    cypher_user_pubkey: &Pubkey,
    signer: &Pubkey,
    order: &OpenOrder,
) -> (r: CancelOrder)
    ensures
        r == cancel_order(
            cypher_group,
            cypher_market,
            cypher_token,
            dex_market_state,
            *open_orders_pubkey,
            *cypher_user_pubkey,
            *signer,
            *order,
        ),
{
    CancelOrder {
        cypher_group: cypher_group.self_address,
        vault_signer: cypher_group.vault_signer,
        cypher_user: *cypher_user_pubkey,
        user_signer: *signer,
        c_asset_mint: cypher_token.mint,
        cypher_c_asset_vault: cypher_token.vault,
        cypher_pc_vault: cypher_group.quote_vault,
        dex_market: cypher_market.dex_market,
        prune_authority: dex_market_state.prune_authority,
        open_orders: *open_orders_pubkey,
        dex_event_queue: dex_market_state.event_q,
        dex_bids: dex_market_state.bids,
        dex_asks: dex_market_state.asks,
        dex_coin_vault: dex_market_state.coin_vault,
        dex_pc_vault: dex_market_state.pc_vault,
        dex_vault_signer: dex_market_state.vault_signer,
        order_id: order.order_id,
        side: order.side,
    }
}

/// Settling funds names the group with its signer and quote vault, the user with the signer, the
/// mint and vault of the token, and the market with its vaults and their signer.
pub proof fn law_settling_names_its_accounts(
    cypher_group: &CypherGroup,
    cypher_market: &CypherMarket,
    cypher_token: &CypherToken,
    dex_market_state: &DexMarketState,
    open_orders: Pubkey,
    cypher_user: Pubkey,
    signer: Pubkey,
)
    ensures
        ({
            let ix = settle_funds(
                cypher_group,
                cypher_market,
                cypher_token,
                dex_market_state,
                open_orders,
                cypher_user,
                signer,
            );
            &&& ix.cypher_group == cypher_group.self_address
            &&& ix.vault_signer == cypher_group.vault_signer
            &&& ix.cypher_user == cypher_user
            &&& ix.user_signer == signer
            &&& ix.c_asset_mint == cypher_token.mint
            &&& ix.cypher_c_asset_vault == cypher_token.vault
            &&& ix.cypher_pc_vault == cypher_group.quote_vault
            &&& ix.dex_market == cypher_market.dex_market
            &&& ix.open_orders == open_orders
            &&& ix.dex_coin_vault == dex_market_state.coin_vault
            &&& ix.dex_pc_vault == dex_market_state.pc_vault
            &&& ix.dex_vault_signer == dex_market_state.vault_signer
        }),
{
}

/// Cancelling an order names what settling names, the authority that prunes, the queue and both
/// sides of the book, and the order with its side.
pub proof fn law_cancelling_names_its_accounts(
    cypher_group: &CypherGroup,
    cypher_market: &CypherMarket,
    cypher_token: &CypherToken,
    dex_market_state: &DexMarketState,
    open_orders: Pubkey,
    cypher_user: Pubkey,
    signer: Pubkey,
    order: OpenOrder,
)
    ensures
        ({
            let ix = cancel_order(
                cypher_group,
                cypher_market,
                cypher_token,
                dex_market_state,
                open_orders,
                cypher_user,
                signer,
                order,
            );
            &&& ix.cypher_group == cypher_group.self_address
            &&& ix.vault_signer == cypher_group.vault_signer
            &&& ix.cypher_user == cypher_user
            &&& ix.user_signer == signer
            &&& ix.c_asset_mint == cypher_token.mint
            &&& ix.cypher_c_asset_vault == cypher_token.vault
            &&& ix.cypher_pc_vault == cypher_group.quote_vault
            &&& ix.dex_market == cypher_market.dex_market
            &&& ix.prune_authority == dex_market_state.prune_authority
            &&& ix.open_orders == open_orders
            &&& ix.dex_event_queue == dex_market_state.event_q
            &&& ix.dex_bids == dex_market_state.bids
            &&& ix.dex_asks == dex_market_state.asks
            &&& ix.dex_coin_vault == dex_market_state.coin_vault
            &&& ix.dex_pc_vault == dex_market_state.pc_vault
            &&& ix.dex_vault_signer == dex_market_state.vault_signer
            &&& ix.order_id == order.order_id
            &&& ix.side == order.side
        }),
{
}

} // verus!
