//! Instructions, the transactions that they are packed into, and how these are submitted.
use vstd::prelude::*;

use crate::key_set::KeySet;
use crate::pubkey::Pubkey;

verus! {

/// An account that an instruction names.
#[derive(Clone, Copy, Debug, PartialEq, Eq)]
pub struct AccountMeta {
    pub pubkey: Pubkey,
    pub is_signer: bool,
    pub is_writable: bool,
}

/// An instruction to a program.
#[derive(Debug, PartialEq, Eq)]
pub struct Instruction {
    pub program_id: Pubkey,
    pub accounts: Vec<AccountMeta>,
    pub data: Vec<u8>,
}

/// The values of an [`Instruction`].
pub struct InstructionView {
    pub program_id: Pubkey,
    pub accounts: Seq<AccountMeta>,
    pub data: Seq<u8>,
}

impl View for Instruction {
    type V = InstructionView;

    open spec fn view(&self) -> InstructionView {
        InstructionView {
            program_id: self.program_id,
            accounts: self.accounts@,
            data: self.data@,
        }
    }
}

impl Clone for Instruction {
    fn clone(&self) -> (r: Self)
        ensures
            r@ == self@,
    {
        let accounts = self.accounts.clone();
        let data = self.data.clone();
        assert(accounts@ =~= self.accounts@);
        assert(data@ =~= self.data@);
        Instruction { program_id: self.program_id, accounts, data }
    }
}

/// The values of instructions.
pub open spec fn views(ixs: Seq<Instruction>) -> Seq<InstructionView> {
    ixs.map_values(|ix: Instruction| ix@)
}

/// The length of a message over which no further instruction is packed.
pub const MESSAGE_LIMIT: usize = 1000;

/// The units of computation that a liquidation asks for.
pub const COMPUTE_UNITS: u32 = 500_000;

/// The fee that a liquidation offers for them.
pub const ADDITIONAL_FEE: u32 = 5_000;

/// The accounts that an instruction names, its program first.
pub open spec fn mentions(ix: InstructionView) -> Seq<AccountMeta> {
    seq![AccountMeta { pubkey: ix.program_id, is_signer: false, is_writable: false }]
        + ix.accounts
}

/// The accounts that a message names: the payer, which signs and is written to, and those of
/// the instructions.
pub open spec fn all_mentions(ixs: Seq<InstructionView>, payer: Pubkey) -> Seq<AccountMeta>
    decreases ixs.len(),
{
    if ixs.len() == 0 {
        seq![AccountMeta { pubkey: payer, is_signer: true, is_writable: true }]
    } else {
        all_mentions(ixs.drop_last(), payer) + mentions(ixs.last())
    }
}

/// The addresses among accounts.
pub open spec fn keys_in(metas: Seq<AccountMeta>) -> Set<Seq<u8>>
    decreases metas.len(),
{
    if metas.len() == 0 {
        Set::empty()
    } else {
        keys_in(metas.drop_last()).insert(metas.last().pubkey@)
    }
}

/// The addresses that sign.
pub open spec fn signers_in(metas: Seq<AccountMeta>) -> Set<Seq<u8>>
    decreases metas.len(),
{
    if metas.len() == 0 {
        Set::empty()
    } else if metas.last().is_signer {
        signers_in(metas.drop_last()).insert(metas.last().pubkey@)
    } else {
        signers_in(metas.drop_last())
    }
}

/// The addresses that are written to.
pub open spec fn writables_in(metas: Seq<AccountMeta>) -> Set<Seq<u8>>
    decreases metas.len(),
{
    if metas.len() == 0 {
        Set::empty()
    } else if metas.last().is_writable {
        writables_in(metas.drop_last()).insert(metas.last().pubkey@)
    } else {
        writables_in(metas.drop_last())
    }
}

/// Whether instructions fit the form of a message: a header that counts signers and read-only
/// accounts in a byte each, and lists of at most 65535 items.
pub open spec fn compilable(ixs: Seq<InstructionView>, payer: Pubkey) -> bool {
    let metas = all_mentions(ixs, payer);
    &&& signers_in(metas).len() <= 255
    &&& keys_in(metas).difference(signers_in(metas)).difference(writables_in(metas)).len() <= 255
    &&& keys_in(metas).len() <= 65535
    &&& ixs.len() <= 65535
    &&& forall|i: int|
        0 <= i < ixs.len() ==> (#[trigger] ixs[i]).accounts.len() <= 65535
            && ixs[i].data.len() <= 65535
}

/// The bytes that the length of a list takes.
pub open spec fn length_bytes(n: nat) -> nat {
    if n < 128 {
        1
    } else if n < 16384 {
        2
    } else {
        3
    }
}

/// The bytes that a list of bytes takes, with its length.
pub open spec fn list_bytes(n: nat) -> nat {
    length_bytes(n) + n
}

/// The bytes that the instructions of a message take: each the index of its program, a byte for
/// each account, and its data.
pub open spec fn instruction_bytes(ixs: Seq<InstructionView>) -> nat
    decreases ixs.len(),
{
    if ixs.len() == 0 {
        0
    } else {
        instruction_bytes(ixs.drop_last()) + 1 + list_bytes(ixs.last().accounts.len())
            + list_bytes(ixs.last().data.len())
    }
}

/// The length of a message: a header of three bytes, the addresses, the block hash and the
/// instructions.
pub open spec fn message_len(ixs: Seq<InstructionView>, payer: Pubkey) -> nat {
    let keys = keys_in(all_mentions(ixs, payer)).len();
    3 + length_bytes(keys) + 32 * keys + 32 + length_bytes(ixs.len()) + instruction_bytes(ixs)
}

/// `solana_sdk::message::Message::new_with_blockhash` and the length of what
/// `solana_sdk::transaction::Transaction::message_data` makes of it: the header, the distinct
/// addresses, the block hash and the instructions, each list behind its length. The call panics
/// where the instructions do not fit the form of a message.
#[verifier::external_body]
fn message_data_len(ixs: &Vec<Instruction>, payer: &Pubkey, blockhash: &[u8; 32]) -> (r: usize)
    requires
        compilable(views(ixs@), *payer),
    ensures
        r == message_len(views(ixs@), *payer),
{
    let key = |k: &Pubkey| solana_sdk::pubkey::Pubkey::new_from_array(k.bytes);
    let list: Vec<solana_sdk::instruction::Instruction> = ixs.iter().map(|ix| {
        let metas = ix.accounts.iter().map(|m| solana_sdk::instruction::AccountMeta {
            pubkey: key(&m.pubkey), is_signer: m.is_signer, is_writable: m.is_writable,
        }).collect();
        solana_sdk::instruction::Instruction {
            program_id: key(&ix.program_id), accounts: metas, data: ix.data.clone(),
        }
    }).collect();
    let hash = solana_sdk::hash::Hash::new_from_array(*blockhash);
    let message = solana_sdk::message::Message::new_with_blockhash(&list, Some(&key(payer)), &hash);
    solana_sdk::transaction::Transaction::new_unsigned(message).message_data().len()
}

/// The bytes of the address of the compute budget program.
pub open spec fn compute_budget_key() -> Seq<u8> {
    seq![
        3u8, 6, 70, 111, 229, 33, 23, 50, 255, 236, 173, 186, 114, 195, 155, 231,
        188, 140, 229, 187, 197, 247, 18, 107, 44, 67, 155, 58, 64, 0, 0, 0,
    ]
}

/// The four bytes of an integer, the lowest first.
pub open spec fn le_bytes(n: u32) -> Seq<u8> {
    seq![
        (n % 256) as u8,
        (n / 256 % 256) as u8,
        (n / 65536 % 256) as u8,
        (n / 16777216) as u8,
    ]
}

/// `solana_sdk::instruction::Instruction::new_with_borsh` of a
/// `ComputeBudgetInstruction::RequestUnitsDeprecated`: to the compute budget program, without
/// accounts, a zero byte and then the units and the fee, four bytes each.
#[verifier::external_body]
fn request_units(units: u32, additional_fee: u32) -> (r: Instruction)
    ensures
        r.program_id@ == compute_budget_key(),
        r.accounts@.len() == 0,
        r.data@ == seq![0u8] + le_bytes(units) + le_bytes(additional_fee),
{
    let ix = solana_sdk::instruction::Instruction::new_with_borsh(
        solana_sdk::compute_budget::id(),
        &solana_sdk::compute_budget::ComputeBudgetInstruction::RequestUnitsDeprecated {
            units,
            additional_fee,
        },
        vec![],
    );
    let metas = ix.accounts.iter().map(|m| AccountMeta {
        pubkey: Pubkey { bytes: m.pubkey.to_bytes() },
        is_signer: m.is_signer,
        is_writable: m.is_writable,
    });
    let program_id = Pubkey { bytes: ix.program_id.to_bytes() };
    Instruction { program_id, accounts: metas.collect(), data: ix.data }
}

/// The instruction that goes ahead of a liquidation.
pub fn compute_budget_instruction() -> (r: Instruction)
    ensures
        r.program_id@ == compute_budget_key(),
        r.accounts@.len() == 0,
        r.data@ == seq![0u8] + le_bytes(COMPUTE_UNITS) + le_bytes(ADDITIONAL_FEE),
{
    request_units(COMPUTE_UNITS, ADDITIONAL_FEE)
}

proof fn lemma_keys_step(metas: Seq<AccountMeta>, i: int)
    requires
        0 <= i < metas.len(),
    ensures
        metas.take(i + 1).drop_last() == metas.take(i),
        metas.take(i + 1).last() == metas[i],
{
    assert(metas.take(i + 1).drop_last() =~= metas.take(i));
}

/// The accounts that a message names.
fn gather(ixs: &Vec<Instruction>, payer: &Pubkey) -> (r: Vec<AccountMeta>)
    ensures
        r@ == all_mentions(views(ixs@), *payer),
{
    let ghost all = views(ixs@);
    let mut metas: Vec<AccountMeta> = Vec::new();
    metas.push(AccountMeta { pubkey: *payer, is_signer: true, is_writable: true });
    let mut i: usize = 0;
    assert(all.take(0) =~= Seq::empty());
    assert(metas@ =~= all_mentions(all.take(0), *payer));
    while i < ixs.len()
        invariant
            i <= ixs@.len(),
            all == views(ixs@),
            metas@ == all_mentions(all.take(i as int), *payer),
        decreases ixs@.len() - i,
    {
        let ghost before = metas@;
        let ix = &ixs[i];
        proof {
            assert(all.take(i + 1).drop_last() =~= all.take(i as int));
            assert(all.take(i + 1).last() == ix@);
        }
        metas.push(AccountMeta { pubkey: ix.program_id, is_signer: false, is_writable: false });
        let mut j: usize = 0;
        assert(metas@ =~= before + mentions(ix@).take(1));
        while j < ix.accounts.len()
            invariant
                j <= ix.accounts@.len(),
                metas@ == before + mentions(ix@).take(j + 1),
            decreases ix.accounts@.len() - j,
        {
            metas.push(ix.accounts[j]);
            assert(metas@ =~= before + mentions(ix@).take(j + 2));
            j = j + 1;
        }
        assert(mentions(ix@).take(ix.accounts@.len() as int + 1) =~= mentions(ix@));
        i = i + 1;
    }
    assert(all.take(ixs@.len() as int) =~= all);
    metas
}

/// Whether instructions fit the form of a message.
pub fn is_compilable(ixs: &Vec<Instruction>, payer: &Pubkey) -> (r: bool)
    ensures
        r == compilable(views(ixs@), *payer),
{
    if ixs.len() > 65535 {
        return false;
    }
    let ghost all = views(ixs@);
    let mut n: usize = 0;
    while n < ixs.len()
        invariant
            n <= ixs@.len(),
            all == views(ixs@),
            forall|i: int|
                0 <= i < n ==> (#[trigger] all[i]).accounts.len() <= 65535 && all[i].data.len()
                    <= 65535,
        decreases ixs@.len() - n,
    {
        assert(all[n as int] == ixs@[n as int]@);
        if ixs[n].accounts.len() > 65535 || ixs[n].data.len() > 65535 {
            return false;
        }
        n = n + 1;
    }
    let metas = gather(ixs, payer);
    let mut keys = KeySet::new();
    let mut signers = KeySet::new();
    let mut writables = KeySet::new();
    let mut i: usize = 0;
    assert(metas@.take(0) =~= Seq::empty());
    while i < metas.len()
        invariant
            i <= metas@.len(),
            keys.is_valid(),
            signers.is_valid(),
            writables.is_valid(),
            keys@ == keys_in(metas@.take(i as int)),
            signers@ == signers_in(metas@.take(i as int)),
            writables@ == writables_in(metas@.take(i as int)),
        decreases metas@.len() - i,
    {
        let meta = metas[i];
        proof {
            lemma_keys_step(metas@, i as int);
        }
        keys.insert(meta.pubkey);
        if meta.is_signer {
            signers.insert(meta.pubkey);
        }
        if meta.is_writable {
            writables.insert(meta.pubkey);
        }
        i = i + 1;
    }
    assert(metas@.take(metas@.len() as int) =~= metas@);
    let readonly = keys.without(&signers, &writables);
    signers.len() <= 255 && readonly.len() <= 255 && keys.len() <= 65535
}

/// The instructions of a transaction that carries the first so many of a list.
pub open spec fn built(
    start: Seq<InstructionView>,
    ixs: Seq<InstructionView>,
    k: int,
) -> Seq<InstructionView> {
    start + ixs.take(k)
}

/// The first instruction, from a given one on, in front of which the message is over the limit;
/// their number where there is none.
pub open spec fn full_at(
    start: Seq<InstructionView>,
    ixs: Seq<InstructionView>,
    payer: Pubkey,
    k: int,
) -> int
    decreases ixs.len() - k,
{
    if k < 0 || k >= ixs.len() {
        ixs.len() as int
    } else if message_len(built(start, ixs, k), payer) > MESSAGE_LIMIT {
        k
    } else {
        full_at(start, ixs, payer, k + 1)
    }
}

/// How many instructions the first transaction carries: all, unless the message is over the
/// limit in front of one of them; then the last that was added is left for the next transaction,
/// but for a transaction that carries no other.
pub open spec fn first_cut(
    start: Seq<InstructionView>,
    ixs: Seq<InstructionView>,
    payer: Pubkey,
) -> int {
    let stop = full_at(start, ixs, payer, 1);
    if stop == ixs.len() || stop <= 1 {
        stop
    } else {
        stop - 1
    }
}

/// The transactions for a list of instructions, each behind the instructions to start with.
pub open spec fn packing(
    start: Seq<InstructionView>,
    ixs: Seq<InstructionView>,
    payer: Pubkey,
) -> Seq<Seq<InstructionView>>
    decreases ixs.len(),
{
    let cut = first_cut(start, ixs, payer);
    if 0 < cut < ixs.len() {
        seq![built(start, ixs, cut)] + packing(start, ixs.skip(cut), payer)
    } else {
        seq![start + ixs]
    }
}

/// Whether every message on the way fits its form.
pub open spec fn packable(
    start: Seq<InstructionView>,
    ixs: Seq<InstructionView>,
    payer: Pubkey,
) -> bool
    decreases ixs.len(),
{
    let cut = first_cut(start, ixs, payer);
    &&& forall|k: int|
        0 <= k <= full_at(start, ixs, payer, 1) ==> compilable(
            #[trigger] built(start, ixs, k),
            payer,
        )
    &&& 0 < cut < ixs.len() ==> packable(start, ixs.skip(cut), payer)
}

/// What a transaction carries behind the instructions to start with.
pub open spec fn part(start: Seq<InstructionView>, transaction: Seq<InstructionView>) -> Seq<
    InstructionView,
> {
    transaction.skip(start.len() as int)
}

/// What transactions carry, one after the other.
pub open spec fn joined_parts(
    start: Seq<InstructionView>,
    transactions: Seq<Seq<InstructionView>>,
) -> Seq<InstructionView>
    decreases transactions.len(),
{
    if transactions.len() == 0 {
        seq![]
    } else {
        part(start, transactions[0]) + joined_parts(start, transactions.drop_first())
    }
}

/// Whether a transaction is behind the instructions to start with, and each of those that it
/// carries but the last left the message within the limit.
pub open spec fn well_filled(
    start: Seq<InstructionView>,
    transaction: Seq<InstructionView>,
    payer: Pubkey,
) -> bool {
    let carried = part(start, transaction);
    &&& transaction == start + carried
    &&& forall|k: int|
        1 <= k < carried.len() ==> message_len(#[trigger] built(start, carried, k), payer)
            <= MESSAGE_LIMIT
}

/// Whether a transaction with another behind it is full: it carries a single instruction or its
/// message is within the limit, and with the first instruction of the next one the message would
/// be over it.
pub open spec fn full_before(
    start: Seq<InstructionView>,
    transaction: Seq<InstructionView>,
    next: Seq<InstructionView>,
    payer: Pubkey,
) -> bool {
    &&& part(start, transaction).len() == 1 || message_len(transaction, payer) <= MESSAGE_LIMIT
    &&& part(start, next).len() > 0
    &&& message_len(transaction.push(part(start, next)[0]), payer) > MESSAGE_LIMIT
}

/// Whether transactions carry instructions, as many each as fit: every instruction is in exactly
/// one transaction, in order, and each transaction but the last is full.
pub open spec fn carries_all(
    transactions: Seq<Seq<InstructionView>>,
    start: Seq<InstructionView>,
    ixs: Seq<InstructionView>,
    payer: Pubkey,
) -> bool {
    &&& transactions.len() > 0
    &&& joined_parts(start, transactions) == ixs
    &&& forall|i: int|
        0 <= i < transactions.len() ==> well_filled(start, #[trigger] transactions[i], payer)
    &&& forall|i: int|
        0 <= i < transactions.len() && ixs.len() > 0 ==> part(
            start,
            #[trigger] transactions[i],
        ).len() > 0
    &&& forall|i: int|
        0 <= i < transactions.len() - 1 ==> full_before(
            start,
            #[trigger] transactions[i],
            transactions[i + 1],
            payer,
        )
}

proof fn lemma_full_at(
    start: Seq<InstructionView>,
    ixs: Seq<InstructionView>,
    payer: Pubkey,
    k: int,
)
    requires
        0 <= k <= ixs.len(),
    ensures
        k <= full_at(start, ixs, payer, k) <= ixs.len(),
        forall|j: int|
            k <= j < full_at(start, ixs, payer, k) ==> message_len(
                #[trigger] built(start, ixs, j),
                payer,
            ) <= MESSAGE_LIMIT,
        full_at(start, ixs, payer, k) < ixs.len() ==> message_len(
            built(start, ixs, full_at(start, ixs, payer, k)),
            payer,
        ) > MESSAGE_LIMIT,
    decreases ixs.len() - k,
{
    if k < ixs.len() {
        lemma_full_at(start, ixs, payer, k + 1);
    }
}

proof fn lemma_keys_grow(metas: Seq<AccountMeta>, further: Seq<AccountMeta>)
    ensures
        keys_in(metas).finite(),
        keys_in(metas + further).finite(),
        keys_in(metas).subset_of(keys_in(metas + further)),
    decreases metas.len() + further.len(),
{
    if further.len() > 0 {
        lemma_keys_grow(metas, further.drop_last());
        assert((metas + further).drop_last() =~= metas + further.drop_last());
    } else {
        assert(metas + further =~= metas);
        if metas.len() > 0 {
            lemma_keys_grow(metas.drop_last(), further);
            assert(metas.drop_last() + further =~= metas.drop_last());
        }
    }
}

/// A further instruction does not make a message shorter.
proof fn lemma_message_grows(ixs: Seq<InstructionView>, ix: InstructionView, payer: Pubkey)
    ensures
        message_len(ixs, payer) <= message_len(ixs.push(ix), payer),
{
    let more = ixs.push(ix);
    assert(more.drop_last() =~= ixs);
    assert(more.last() == ix);
    lemma_keys_grow(all_mentions(ixs, payer), mentions(ix));
    vstd::set_lib::lemma_len_subset(
        keys_in(all_mentions(ixs, payer)),
        keys_in(all_mentions(more, payer)),
    );
}

/// The transactions carry all instructions, as many each as fit.
pub proof fn law_every_instruction_is_carried_once(
    start: Seq<InstructionView>,
    ixs: Seq<InstructionView>,
    payer: Pubkey,
)
    ensures
        carries_all(packing(start, ixs, payer), start, ixs, payer),
    decreases ixs.len(),
{
    let all = packing(start, ixs, payer);
    let cut = first_cut(start, ixs, payer);
    if ixs.len() > 0 {
        lemma_full_at(start, ixs, payer, 1);
    }
    if 0 < cut < ixs.len() {
        let stop = full_at(start, ixs, payer, 1);
        let first = built(start, ixs, cut);
        let rest_ixs = ixs.skip(cut);
        let rest = packing(start, rest_ixs, payer);
        law_every_instruction_is_carried_once(start, rest_ixs, payer);
        assert(all[0] == first);
        assert(all.drop_first() =~= rest);
        assert(part(start, first) =~= ixs.take(cut));
        assert(ixs.take(cut) + rest_ixs =~= ixs);
        assert forall|k: int| 1 <= k < cut implies message_len(
            #[trigger] built(start, part(start, first), k),
            payer,
        ) <= MESSAGE_LIMIT by {
            assert(ixs.take(cut).take(k) =~= ixs.take(k));
            assert(message_len(built(start, ixs, k), payer) <= MESSAGE_LIMIT);
        }
        lemma_first_of_packing(start, rest_ixs, payer);
        assert(part(start, rest[0])[0] == ixs[cut]);
        assert(first.push(ixs[cut]) =~= built(start, ixs, cut + 1));
        if stop == 1 {
            lemma_message_grows(first, ixs[cut], payer);
        } else {
            assert(message_len(built(start, ixs, cut), payer) <= MESSAGE_LIMIT);
        }
        assert(full_before(start, first, rest[0], payer));
        assert forall|i: int| 0 <= i < all.len() implies well_filled(
            start,
            #[trigger] all[i],
            payer,
        ) && part(start, all[i]).len() > 0 by {
            if i > 0 {
                assert(all[i] == rest[i - 1]);
            }
        }
        assert forall|i: int| 0 <= i < all.len() - 1 implies full_before(
            start,
            #[trigger] all[i],
            all[i + 1],
            payer,
        ) by {
            assert(all[i + 1] == rest[i]);
            if i > 0 {
                assert(all[i] == rest[i - 1]);
            }
        }
    } else {
        let only = start + ixs;
        assert(part(start, only) =~= ixs);
        assert(all.drop_first() =~= Seq::empty());
        assert(joined_parts(start, all.drop_first()) =~= Seq::empty());
        assert(joined_parts(start, all) =~= ixs);
        assert forall|k: int| 1 <= k < ixs.len() implies message_len(
            #[trigger] built(start, part(start, only), k),
            payer,
        ) <= MESSAGE_LIMIT by {
            assert(message_len(built(start, ixs, k), payer) <= MESSAGE_LIMIT);
        }
    }
}

proof fn lemma_first_of_packing(
    start: Seq<InstructionView>,
    ixs: Seq<InstructionView>,
    payer: Pubkey,
)
    requires
        ixs.len() > 0,
    ensures
        packing(start, ixs, payer).len() > 0,
        part(start, packing(start, ixs, payer)[0]).len() > 0,
        part(start, packing(start, ixs, payer)[0])[0] == ixs[0],
{
    let cut = first_cut(start, ixs, payer);
    if 0 < cut < ixs.len() {
        assert(part(start, built(start, ixs, cut)) =~= ixs.take(cut));
    } else {
        assert(part(start, start + ixs) =~= ixs);
    }
}

/// Where the message stays within the limit in front of each instruction, one transaction
/// carries all of them, in their order.
pub proof fn law_all_in_one_where_it_fits(
    start: Seq<InstructionView>,
    ixs: Seq<InstructionView>,
    payer: Pubkey,
)
    requires
        forall|k: int|
            1 <= k < ixs.len() ==> message_len(#[trigger] built(start, ixs, k), payer)
                <= MESSAGE_LIMIT,
    ensures
        packing(start, ixs, payer) == seq![start + ixs],
{
    if ixs.len() > 0 {
        lemma_full_at(start, ixs, payer, 1);
        let stop = full_at(start, ixs, payer, 1);
        if stop < ixs.len() {
            assert(message_len(built(start, ixs, stop), payer) <= MESSAGE_LIMIT);
        }
    }
}

/// The transactions over the instructions themselves: there are cuts from the first instruction to
/// behind the last such that each transaction carries, behind the instructions to start with,
/// those from one cut to the next. Each but the last has a message of at most a thousand bytes or
/// carries a single instruction, and would be longer than that with one instruction more; and no
/// transaction is longer without its last instruction, unless it carries a single one. The cuts
/// are what is returned.
pub proof fn law_transactions_are_cut_where_full(
    start: Seq<InstructionView>,
    ixs: Seq<InstructionView>,
    payer: Pubkey,
) -> (cuts: Seq<int>)
    ensures
        ({
            let transactions = packing(start, ixs, payer);
            &&& transactions.len() > 0
            &&& cuts.len() == transactions.len() + 1
            &&& cuts[0] == 0 && cuts[transactions.len() as int] == ixs.len()
            &&& forall|t: int|
                #![trigger cuts[t]]
                0 <= t < transactions.len() ==> {
                    &&& 0 <= cuts[t] <= cuts[t + 1] <= ixs.len()
                    &&& ixs.len() > 0 ==> cuts[t] < cuts[t + 1]
                    &&& transactions[t] == start + ixs.subrange(cuts[t], cuts[t + 1])
                    &&& cuts[t + 1] - cuts[t] > 1 ==> message_len(
                        start + ixs.subrange(cuts[t], cuts[t + 1] - 1),
                        payer,
                    ) <= 1000
                }
            &&& forall|t: int|
                #![trigger cuts[t]]
                0 <= t < transactions.len() - 1 ==> {
                    &&& cuts[t + 1] < ixs.len()
                    &&& cuts[t + 1] - cuts[t] == 1 || message_len(transactions[t], payer) <= 1000
                    &&& message_len(start + ixs.subrange(cuts[t], cuts[t + 1] + 1), payer) > 1000
                }
        }),
{
    let cuts = lemma_cuts(start, ixs, payer);
    let transactions = packing(start, ixs, payer);
    assert forall|t: int| #![trigger cuts[t]] 0 <= t < transactions.len() implies {
        &&& 0 <= cuts[t] <= cuts[t + 1] <= ixs.len()
        &&& ixs.len() > 0 ==> cuts[t] < cuts[t + 1]
        &&& transactions[t] == start + ixs.subrange(cuts[t], cuts[t + 1])
        &&& cuts[t + 1] - cuts[t] > 1 ==> message_len(
            start + ixs.subrange(cuts[t], cuts[t + 1] - 1),
            payer,
        ) <= 1000
    } by {
        reveal(is_run);
        assert(is_run(start, ixs, payer, transactions[t], cuts[t], cuts[t + 1]));
    }
    assert forall|t: int| #![trigger cuts[t]] 0 <= t < transactions.len() - 1 implies {
        &&& cuts[t + 1] < ixs.len()
        &&& cuts[t + 1] - cuts[t] == 1 || message_len(transactions[t], payer) <= 1000
        &&& message_len(start + ixs.subrange(cuts[t], cuts[t + 1] + 1), payer) > 1000
    } by {
        reveal(is_full_run);
        assert(is_full_run(start, ixs, payer, transactions[t], cuts[t], cuts[t + 1]));
    }
    cuts
}

/// Whether a transaction carries a run of the instructions, and is not over the limit without the
/// last of several.
#[verifier::opaque]
spec fn is_run(
    start: Seq<InstructionView>,
    ixs: Seq<InstructionView>,
    payer: Pubkey,
    transaction: Seq<InstructionView>,
    a: int,
    b: int,
) -> bool {
    &&& 0 <= a <= b <= ixs.len()
    &&& ixs.len() > 0 ==> a < b
    &&& transaction == start + ixs.subrange(a, b)
    &&& b - a > 1 ==> message_len(start + ixs.subrange(a, b - 1), payer) <= MESSAGE_LIMIT
}

/// Whether a transaction with a run of the instructions is full.
#[verifier::opaque]
spec fn is_full_run(
    start: Seq<InstructionView>,
    ixs: Seq<InstructionView>,
    payer: Pubkey,
    transaction: Seq<InstructionView>,
    a: int,
    b: int,
) -> bool {
    &&& 0 <= a < b < ixs.len()
    &&& b - a == 1 || message_len(transaction, payer) <= MESSAGE_LIMIT
    &&& message_len(start + ixs.subrange(a, b + 1), payer) > MESSAGE_LIMIT
}

proof fn lemma_first_run(start: Seq<InstructionView>, ixs: Seq<InstructionView>, payer: Pubkey)
    requires
        0 < first_cut(start, ixs, payer) < ixs.len(),
    ensures
        ({
            let cut = first_cut(start, ixs, payer);
            &&& is_run(start, ixs, payer, built(start, ixs, cut), 0, cut)
            &&& is_full_run(start, ixs, payer, built(start, ixs, cut), 0, cut)
        }),
{
    reveal(is_run);
    reveal(is_full_run);
    let cut = first_cut(start, ixs, payer);
    let stop = full_at(start, ixs, payer, 1);
    lemma_full_at(start, ixs, payer, 1);
    assert(ixs.subrange(0, cut) =~= ixs.take(cut));
    assert(ixs.subrange(0, cut - 1) =~= ixs.take(cut - 1));
    assert(ixs.subrange(0, cut + 1) =~= ixs.take(cut + 1));
    if cut > 1 {
        assert(message_len(built(start, ixs, cut - 1), payer) <= MESSAGE_LIMIT);
    }
    if stop == 1 {
        assert(built(start, ixs, 1).push(ixs[1]) =~= built(start, ixs, 2));
        lemma_message_grows(built(start, ixs, 1), ixs[1], payer);
    } else {
        assert(message_len(built(start, ixs, cut), payer) <= MESSAGE_LIMIT);
    }
}

proof fn lemma_later_run(
    start: Seq<InstructionView>,
    ixs: Seq<InstructionView>,
    payer: Pubkey,
    transaction: Seq<InstructionView>,
    cut: int,
    a: int,
    b: int,
)
    requires
        0 < cut < ixs.len(),
        is_run(start, ixs.skip(cut), payer, transaction, a, b),
    ensures
        is_run(start, ixs, payer, transaction, a + cut, b + cut),
        is_full_run(start, ixs.skip(cut), payer, transaction, a, b) ==> is_full_run(
            start,
            ixs,
            payer,
            transaction,
            a + cut,
            b + cut,
        ),
{
    reveal(is_run);
    reveal(is_full_run);
    let rest = ixs.skip(cut);
    assert(rest.subrange(a, b) =~= ixs.subrange(a + cut, b + cut));
    if b - a > 1 {
        assert(rest.subrange(a, b - 1) =~= ixs.subrange(a + cut, b + cut - 1));
    }
    if b < rest.len() {
        assert(rest.subrange(a, b + 1) =~= ixs.subrange(a + cut, b + cut + 1));
    }
}

proof fn lemma_cuts(start: Seq<InstructionView>, ixs: Seq<InstructionView>, payer: Pubkey) -> (cuts:
    Seq<int>)
    ensures
        packing(start, ixs, payer).len() > 0,
        cuts.len() == packing(start, ixs, payer).len() + 1,
        cuts[0] == 0,
        cuts[packing(start, ixs, payer).len() as int] == ixs.len(),
        forall|t: int|
            0 <= t < packing(start, ixs, payer).len() ==> is_run(
                start,
                ixs,
                payer,
                #[trigger] packing(start, ixs, payer)[t],
                cuts[t],
                cuts[t + 1],
            ),
        forall|t: int|
            0 <= t < packing(start, ixs, payer).len() - 1 ==> is_full_run(
                start,
                ixs,
                payer,
                #[trigger] packing(start, ixs, payer)[t],
                cuts[t],
                cuts[t + 1],
            ),
    decreases ixs.len(),
{
    let all = packing(start, ixs, payer);
    let cut = first_cut(start, ixs, payer);
    if 0 < cut < ixs.len() {
        let rest = packing(start, ixs.skip(cut), payer);
        let later = lemma_cuts(start, ixs.skip(cut), payer);
        let cuts = seq![0int] + later.map_values(|c: int| c + cut);
        assert(all =~= seq![built(start, ixs, cut)] + rest);
        assert forall|t: int| 0 <= t < all.len() implies is_run(
            start,
            ixs,
            payer,
            #[trigger] all[t],
            cuts[t],
            cuts[t + 1],
        ) && (t < all.len() - 1 ==> is_full_run(
            start,
            ixs,
            payer,
            all[t],
            cuts[t],
            cuts[t + 1],
        )) by {
            if t == 0 {
                lemma_first_run(start, ixs, payer);
            } else {
                assert(all[t] == rest[t - 1]);
                lemma_later_run(start, ixs, payer, rest[t - 1], cut, later[t - 1], later[t]);
            }
        }
        cuts
    } else {
        reveal(is_run);
        let cuts = seq![0, ixs.len() as int];
        assert(ixs.subrange(0, ixs.len() as int) =~= ixs);
        if ixs.len() > 1 {
            lemma_full_at(start, ixs, payer, 1);
            assert(ixs.subrange(0, ixs.len() - 1) =~= ixs.take(ixs.len() - 1));
            assert(message_len(built(start, ixs, ixs.len() - 1), payer) <= MESSAGE_LIMIT);
        }
        cuts
    }
}

/// Instructions can be packed wherever every run of them, behind the instructions to start with,
/// fits the form of a message; and where they are packed, each transaction does.
pub proof fn law_packed_where_messages_fit(
    start: Seq<InstructionView>,
    ixs: Seq<InstructionView>,
    payer: Pubkey,
)
    ensures
        (forall|a: int, b: int|
            0 <= a <= b <= ixs.len() ==> compilable(start + #[trigger] ixs.subrange(a, b), payer))
            ==> packable(start, ixs, payer),
        packable(start, ixs, payer) ==> forall|t: int|
            0 <= t < packing(start, ixs, payer).len() ==> compilable(
                #[trigger] packing(start, ixs, payer)[t],
                payer,
            ),
    decreases ixs.len(),
{
    let all = packing(start, ixs, payer);
    let cut = first_cut(start, ixs, payer);
    let stop = full_at(start, ixs, payer, 1);
    if ixs.len() > 0 {
        lemma_full_at(start, ixs, payer, 1);
    }
    let fits = forall|a: int, b: int|
        0 <= a <= b <= ixs.len() ==> compilable(start + #[trigger] ixs.subrange(a, b), payer);
    if fits {
        assert forall|k: int| 0 <= k <= stop implies compilable(
            #[trigger] built(start, ixs, k),
            payer,
        ) by {
            assert(ixs.subrange(0, k) =~= ixs.take(k));
        }
    }
    if 0 < cut < ixs.len() {
        let rest_ixs = ixs.skip(cut);
        let rest = packing(start, rest_ixs, payer);
        law_packed_where_messages_fit(start, rest_ixs, payer);
        if fits {
            assert forall|a: int, b: int| 0 <= a <= b <= rest_ixs.len() implies compilable(
                start + #[trigger] rest_ixs.subrange(a, b),
                payer,
            ) by {
                assert(rest_ixs.subrange(a, b) =~= ixs.subrange(a + cut, b + cut));
            }
        }
        if packable(start, ixs, payer) {
            assert forall|t: int| 0 <= t < all.len() implies compilable(
                #[trigger] all[t],
                payer,
            ) by {
                if t == 0 {
                    assert(all[0] == built(start, ixs, cut));
                } else {
                    assert(all[t] == rest[t - 1]);
                }
            }
        }
    } else {
        assert(built(start, ixs, ixs.len() as int) =~= start + ixs);
        if packable(start, ixs, payer) {
            assert(compilable(built(start, ixs, ixs.len() as int), payer));
        }
    }
}

proof fn lemma_in_all_mentions(ixs: Seq<InstructionView>, payer: Pubkey, meta: AccountMeta)
    ensures
        all_mentions(ixs, payer).contains(meta) <==> {
            ||| meta == (AccountMeta { pubkey: payer, is_signer: true, is_writable: true })
            ||| exists|i: int| 0 <= i < ixs.len() && (#[trigger] mentions(ixs[i])).contains(meta)
        },
    decreases ixs.len(),
{
    let all = all_mentions(ixs, payer);
    if ixs.len() == 0 {
        let first = AccountMeta { pubkey: payer, is_signer: true, is_writable: true };
        assert(all[0] == first);
    } else {
        let rest = ixs.drop_last();
        let n = ixs.len() - 1;
        lemma_in_all_mentions(rest, payer, meta);
        let before = all_mentions(rest, payer);
        let last = mentions(ixs[n]);
        assert(ixs.last() == ixs[n]);
        assert(all == before + last);
        if before.contains(meta) {
            let k = choose|k: int| 0 <= k < before.len() && before[k] == meta;
            assert(all[k] == meta);
            if exists|i: int| 0 <= i < rest.len() && (#[trigger] mentions(rest[i])).contains(meta) {
                let i = choose|i: int|
                    0 <= i < rest.len() && (#[trigger] mentions(rest[i])).contains(meta);
                assert(rest[i] == ixs[i]);
                assert(mentions(ixs[i]).contains(meta));
            }
        }
        if last.contains(meta) {
            let k = choose|k: int| 0 <= k < last.len() && last[k] == meta;
            assert(all[before.len() + k] == meta);
            assert(mentions(ixs[n]).contains(meta));
        }
        if all.contains(meta) {
            let k = choose|k: int| 0 <= k < all.len() && all[k] == meta;
            if k < before.len() {
                assert(before[k] == meta);
            } else {
                assert(last[k - before.len()] == meta);
            }
        }
        if exists|i: int| 0 <= i < ixs.len() && (#[trigger] mentions(ixs[i])).contains(meta) {
            let i = choose|i: int|
                0 <= i < ixs.len() && (#[trigger] mentions(ixs[i])).contains(meta);
            if i < n {
                assert(mentions(rest[i]).contains(meta));
            }
        }
    }
}

proof fn lemma_in_keys(metas: Seq<AccountMeta>, key: Seq<u8>)
    ensures
        keys_in(metas).contains(key) <==> exists|m: AccountMeta| #[trigger]
            metas.contains(m) && m.pubkey@ == key,
        signers_in(metas).contains(key) <==> exists|m: AccountMeta| #[trigger]
            metas.contains(m) && m.is_signer && m.pubkey@ == key,
        writables_in(metas).contains(key) <==> exists|m: AccountMeta| #[trigger]
            metas.contains(m) && m.is_writable && m.pubkey@ == key,
    decreases metas.len(),
{
    if metas.len() > 0 {
        let rest = metas.drop_last();
        lemma_in_keys(rest, key);
        assert(metas.contains(metas.last())) by {
            assert(metas[metas.len() - 1] == metas.last());
        }
        assert forall|m: AccountMeta| #[trigger] metas.contains(m) <==> rest.contains(m) || m
            == metas.last() by {
            if metas.contains(m) {
                let k = choose|k: int| 0 <= k < metas.len() && metas[k] == m;
                if k < rest.len() {
                    assert(rest[k] == m);
                }
            }
            if rest.contains(m) {
                let k = choose|k: int| 0 <= k < rest.len() && rest[k] == m;
                assert(metas[k] == m);
            }
        }
        assert forall|m: AccountMeta| #[trigger] rest.contains(m) implies metas.contains(m) by {}
    }
}

/// Instructions fit the form of a message exactly where at most 255 addresses sign, at most 255
/// are named that neither sign nor are written to, at most 65535 are named at all, and no list is
/// longer than that. The payer signs and is written to, and a program that is called is named.
pub proof fn law_message_form(
    ixs: Seq<InstructionView>,
    payer: Pubkey,
    signers: Set<Seq<u8>>,
    readonly: Set<Seq<u8>>,
    keys: Set<Seq<u8>>,
)
    requires
        ({
            let signs = |k: Seq<u8>|
                k == payer@ || exists|i: int, j: int|
                    #![trigger ixs[i].accounts[j]]
                    0 <= i < ixs.len() && 0 <= j < ixs[i].accounts.len()
                        && ixs[i].accounts[j].pubkey@ == k && ixs[i].accounts[j].is_signer;
            let written = |k: Seq<u8>|
                k == payer@ || exists|i: int, j: int|
                    #![trigger ixs[i].accounts[j]]
                    0 <= i < ixs.len() && 0 <= j < ixs[i].accounts.len()
                        && ixs[i].accounts[j].pubkey@ == k && ixs[i].accounts[j].is_writable;
            let called = |k: Seq<u8>|
                exists|i: int| 0 <= i < ixs.len() && (#[trigger] ixs[i]).program_id@ == k;
            let named = |k: Seq<u8>|
                k == payer@ || called(k) || exists|i: int, j: int|
                    #![trigger ixs[i].accounts[j]]
                    0 <= i < ixs.len() && 0 <= j < ixs[i].accounts.len()
                        && ixs[i].accounts[j].pubkey@ == k;
            forall|k: Seq<u8>|
                #![trigger signers.contains(k)]
                #![trigger readonly.contains(k)]
                #![trigger keys.contains(k)]
                {
                    &&& signers.contains(k) <==> signs(k)
                    &&& readonly.contains(k) <==> named(k) && !signs(k) && !written(k)
                    &&& keys.contains(k) <==> named(k)
                }
        }),
    ensures
        compilable(ixs, payer) <==> {
            &&& signers.len() <= 255
            &&& readonly.len() <= 255
            &&& keys.len() <= 65535
            &&& ixs.len() <= 65535
            &&& forall|i: int|
                0 <= i < ixs.len() ==> (#[trigger] ixs[i]).accounts.len() <= 65535
                    && ixs[i].data.len() <= 65535
        },
{
    let metas = all_mentions(ixs, payer);
    assert forall|k: Seq<u8>|
        {
            &&& keys_in(metas).contains(k) <==> #[trigger] keys.contains(k)
            &&& signers_in(metas).contains(k) <==> signers.contains(k)
            &&& keys_in(metas).difference(signers_in(metas)).difference(
                writables_in(metas),
            ).contains(k) <==> readonly.contains(k)
        } by {
        lemma_named_by_message(ixs, payer, k);
        assert(signers.contains(k) || !signers.contains(k));
        assert(readonly.contains(k) || !readonly.contains(k));
    }
    assert(keys_in(metas) =~= keys) by {
        assert forall|k: Seq<u8>| keys_in(metas).contains(k) <==> keys.contains(k) by {
            assert(keys.contains(k) || !keys.contains(k));
        }
    }
    assert(signers_in(metas) =~= signers) by {
        assert forall|k: Seq<u8>| signers_in(metas).contains(k) <==> signers.contains(k) by {
            assert(keys.contains(k) || !keys.contains(k));
        }
    }
    let rest = keys_in(metas).difference(signers_in(metas)).difference(writables_in(metas));
    assert(rest =~= readonly) by {
        assert forall|k: Seq<u8>| rest.contains(k) <==> readonly.contains(k) by {
            assert(keys.contains(k) || !keys.contains(k));
        }
    }
}

proof fn lemma_named_by_message(ixs: Seq<InstructionView>, payer: Pubkey, k: Seq<u8>)
    ensures
        ({
            let metas = all_mentions(ixs, payer);
            let signs = |k: Seq<u8>|
                k == payer@ || exists|i: int, j: int|
                    #![trigger ixs[i].accounts[j]]
                    0 <= i < ixs.len() && 0 <= j < ixs[i].accounts.len()
                        && ixs[i].accounts[j].pubkey@ == k && ixs[i].accounts[j].is_signer;
            let written = |k: Seq<u8>|
                k == payer@ || exists|i: int, j: int|
                    #![trigger ixs[i].accounts[j]]
                    0 <= i < ixs.len() && 0 <= j < ixs[i].accounts.len()
                        && ixs[i].accounts[j].pubkey@ == k && ixs[i].accounts[j].is_writable;
            let called = |k: Seq<u8>|
                exists|i: int| 0 <= i < ixs.len() && (#[trigger] ixs[i]).program_id@ == k;
            let named = |k: Seq<u8>|
                k == payer@ || called(k) || exists|i: int, j: int|
                    #![trigger ixs[i].accounts[j]]
                    0 <= i < ixs.len() && 0 <= j < ixs[i].accounts.len()
                        && ixs[i].accounts[j].pubkey@ == k;
            &&& signers_in(metas).contains(k) <==> signs(k)
            &&& writables_in(metas).contains(k) <==> written(k)
            &&& keys_in(metas).contains(k) <==> named(k)
        }),
{
    let metas = all_mentions(ixs, payer);
    lemma_in_keys(metas, k);
    let first = AccountMeta { pubkey: payer, is_signer: true, is_writable: true };
    lemma_in_all_mentions(ixs, payer, first);
    assert(metas.contains(first));
    assert forall|i: int, j: int|
        #![trigger ixs[i].accounts[j]]
        0 <= i < ixs.len() && 0 <= j < ixs[i].accounts.len() implies metas.contains(
        ixs[i].accounts[j],
    ) by {
        assert(mentions(ixs[i])[j + 1] == ixs[i].accounts[j]);
        assert(mentions(ixs[i]).contains(ixs[i].accounts[j]));
        lemma_in_all_mentions(ixs, payer, ixs[i].accounts[j]);
    }
    assert forall|i: int| 0 <= i < ixs.len() implies metas.contains(
        AccountMeta {
            pubkey: (#[trigger] ixs[i]).program_id,
            is_signer: false,
            is_writable: false,
        },
    ) by {
        let program = AccountMeta {
            pubkey: ixs[i].program_id,
            is_signer: false,
            is_writable: false,
        };
        assert(mentions(ixs[i])[0] == program);
        assert(mentions(ixs[i]).contains(program));
        lemma_in_all_mentions(ixs, payer, program);
    }
    assert forall|m: AccountMeta| #[trigger] metas.contains(m) && m.pubkey@ == k implies {
        ||| m == first
        ||| exists|i: int|
            0 <= i < ixs.len() && (#[trigger] ixs[i]).program_id == m.pubkey && !m.is_signer
                && !m.is_writable
        ||| exists|i: int, j: int|
            #![trigger ixs[i].accounts[j]]
            0 <= i < ixs.len() && 0 <= j < ixs[i].accounts.len() && ixs[i].accounts[j] == m
    } by {
        lemma_in_all_mentions(ixs, payer, m);
        if m != first {
            let i = choose|i: int| 0 <= i < ixs.len() && (#[trigger] mentions(ixs[i])).contains(m);
            let list = mentions(ixs[i]);
            let j = choose|j: int| 0 <= j < list.len() && list[j] == m;
            if j == 0 {
                assert(ixs[i].program_id == m.pubkey);
            } else {
                assert(ixs[i].accounts[j - 1] == m);
            }
        }
    }
}

/// The transactions that carry a list of instructions.
pub struct Packed {
    pub transactions: Vec<Vec<Instruction>>,
}

/// The values of a [`Packed`].
impl View for Packed {
    type V = Seq<Seq<InstructionView>>;

    open spec fn view(&self) -> Seq<Seq<InstructionView>> {
        self.transactions@.map_values(|transaction: Vec<Instruction>| views(transaction@))
    }
}

fn copy_of(ixs: &Vec<Instruction>) -> (r: Vec<Instruction>)
    ensures
        views(r@) == views(ixs@),
{
    let mut copy: Vec<Instruction> = Vec::new();
    let mut i: usize = 0;
    assert(views(copy@) =~= views(ixs@).take(0));
    while i < ixs.len()
        invariant
            i <= ixs@.len(),
            views(copy@) == views(ixs@).take(i as int),
        decreases ixs@.len() - i,
    {
        let ghost before = views(copy@);
        let ix = ixs[i].clone();
        copy.push(ix);
        assert(views(copy@) =~= before.push(ix@));
        assert(views(copy@) =~= views(ixs@).take(i + 1));
        i = i + 1;
    }
    assert(views(ixs@).take(ixs@.len() as int) =~= views(ixs@));
    copy
}

/// Packs instructions into transactions, each behind the instructions to start with; nothing
/// where a message on the way does not fit its form.
#[verifier::rlimit(60)]
pub fn pack_instructions(
    start: Vec<Instruction>,
    ixs: Vec<Instruction>,
    payer: &Pubkey,
    blockhash: &[u8; 32],
) -> (r: Option<Packed>)
    ensures
        r is Some <==> packable(views(start@), views(ixs@), *payer),
        r is Some ==> r->Some_0@ == packing(views(start@), views(ixs@), *payer),
        r is Some ==> carries_all(r->Some_0@, views(start@), views(ixs@), *payer),
{
    let ghost first = views(start@);
    let ghost all = views(ixs@);
    let ghost mut left = all;
    let mut packed = Packed { transactions: Vec::new() };
    let mut builder = copy_of(&start);
    let mut rest = ixs;
    let mut carried: usize = 0;
    proof {
        law_every_instruction_is_carried_once(first, all, *payer);
        assert(views(builder@) =~= built(first, left, 0));
        assert(left.skip(0) =~= left);
        assert(packed@ + packing(first, left, *payer) =~= packing(first, all, *payer));
        assert(ixs.len() == all.len());
    }
    while rest.len() > 0
        invariant
            first == views(start@),
            all == views(ixs@),
            carried <= left.len(),
            views(builder@) == built(first, left, carried as int),
            views(rest@) == left.skip(carried as int),
            packed@ + packing(first, left, *payer) == packing(first, all, *payer),
            packable(first, left, *payer) == packable(first, all, *payer),
            left.len() <= usize::MAX,
            full_at(first, left, *payer, 1) == full_at(
                first,
                left,
                *payer,
                if carried == 0 {
                    1
                } else {
                    carried as int
                },
            ),
            forall|k: int|
                0 <= k < carried ==> compilable(#[trigger] built(first, left, k), *payer),
        decreases rest@.len(), carried,
    {
        proof {
            lemma_full_at(first, left, *payer, 1);
            assert(views(rest@).len() == left.len() - carried);
            if carried > 0 {
                lemma_full_at(first, left, *payer, carried as int);
            }
        }
        if !is_compilable(&builder, payer) {
            assert(!compilable(built(first, left, carried as int), *payer));
            return None;
        }
        if carried > 0 && message_data_len(&builder, payer, blockhash) > MESSAGE_LIMIT {
            let ghost cut = first_cut(first, left, *payer);
            let ghost before = packed@;
            let ghost old_left = left;
            let mut next = copy_of(&start);
            if carried > 1 {
                let ghost whole = views(builder@);
                let last = builder.pop().unwrap();
                proof {
                    assert(views(builder@) =~= whole.drop_last());
                    assert(views(builder@) =~= built(first, left, cut));
                    assert(last@ == whole.last());
                    assert(whole.last() == left[cut]);
                }
                next.push(last);
                carried = 1;
            } else {
                carried = 0;
            }
            proof {
                left = left.skip(cut);
                assert(views(next@) =~= built(first, left, carried as int));
                assert(left.skip(carried as int) =~= views(rest@));
                assert(built(first, left, 0) =~= built(first, old_left, 0));
                assert(compilable(built(first, old_left, 0), *payer));
            }
            packed.transactions.push(builder);
            builder = next;
            proof {
                assert(packed@ =~= before.push(built(first, old_left, cut)));
                assert(packed@ + packing(first, left, *payer) =~= before + packing(
                    first,
                    old_left,
                    *payer,
                ));
            }
        } else {
            let ghost whole = views(builder@);
            let ghost rested = views(rest@);
            let ix = rest.remove(0);
            proof {
                assert(ix@ == rested[0]);
                assert(views(rest@) =~= rested.skip(1));
                assert(views(rest@) =~= left.skip(carried + 1));
            }
            builder.push(ix);
            proof {
                assert(views(builder@) =~= whole.push(ix@));
                assert(views(builder@) =~= built(first, left, carried + 1));
            }
            carried = carried + 1;
        }
    }
    proof {
        assert(views(rest@).len() == 0);
        if left.len() > 0 {
            lemma_full_at(first, left, *payer, 1);
        }
        assert(built(first, left, left.len() as int) =~= first + left);
    }
    if !is_compilable(&builder, payer) {
        assert(!compilable(built(first, left, carried as int), *payer));
        return None;
    }
    let ghost before = packed@;
    packed.transactions.push(builder);
    proof {
        assert(packing(first, left, *payer) == seq![first + left]);
        assert(packed@ =~= before + packing(first, left, *payer));
    }
    Some(packed)
}

/// The next thing to do in submitting transactions.
#[derive(Clone, Copy, Debug, PartialEq, Eq, Structural)]
pub enum SubmitAction {
    /// Submit a transaction.
    Submit(usize),
    /// Ask whether the transaction is there.
    Confirm,
    /// Wait for half a second, then ask whether the transaction is there.
    WaitAndConfirm,
    /// All is submitted.
    Done,
}

/// What came of the last thing that was done.
pub enum SubmitEvent<E> {
    /// The transaction was accepted.
    Accepted,
    /// The transaction was not accepted.
    Refused(E),
    /// The transaction is there.
    Found,
    /// The transaction is not there yet.
    Missing,
}

/// The thing to do when it is the turn of a transaction among so many.
pub open spec fn submit_or_done(next: nat, total: nat) -> SubmitAction {
    if next < total {
        SubmitAction::Submit(next as usize)
    } else {
        SubmitAction::Done
    }
}

/// The transaction whose turn it is after an event, and what to do next: a transaction that is
/// not accepted ends it all, one that is not there yet is asked for again, and one that is there
/// makes place for the next.
pub open spec fn after_event<E>(next: nat, total: nat, event: SubmitEvent<E>) -> (
    nat,
    Option<SubmitAction>,
) {
    match event {
        SubmitEvent::Accepted => (next, Some(SubmitAction::Confirm)),
        SubmitEvent::Refused(_) => (next, None),
        SubmitEvent::Missing => (next, Some(SubmitAction::WaitAndConfirm)),
        SubmitEvent::Found => (next + 1, Some(submit_or_done(next + 1, total))),
    }
}

/// The transaction that an action submits, where it submits one.
pub open spec fn submitted_by(action: Option<SubmitAction>) -> Seq<usize> {
    match action {
        Some(SubmitAction::Submit(transaction)) => seq![transaction],
        _ => seq![],
    }
}

/// The transaction whose turn it is after events, and those that were to be submitted until
/// then, in order.
pub open spec fn after_events<E>(total: nat, events: Seq<SubmitEvent<E>>) -> (nat, Seq<usize>)
    decreases events.len(),
{
    if events.len() == 0 {
        (0, submitted_by(Some(submit_or_done(0, total))))
    } else {
        let (next, submitted) = after_events(total, events.drop_last());
        let (then_next, action) = after_event(next, total, events.last());
        (then_next, submitted + submitted_by(action))
    }
}

/// Whether each event comes while there is something left to submit.
pub open spec fn in_time<E>(total: nat, events: Seq<SubmitEvent<E>>) -> bool {
    forall|n: int|
        0 <= n < events.len() ==> (#[trigger] after_events(total, events.take(n))).0 < total
}

/// The transactions are submitted one after the other, none twice and none left out: until then
/// those up to the one whose turn it is, and in the end all.
pub proof fn law_each_transaction_is_submitted_once<E>(total: nat, events: Seq<SubmitEvent<E>>)
    requires
        total <= usize::MAX,
        in_time(total, events),
    ensures
        ({
            let (next, submitted) = after_events(total, events);
            let count = if next < total {
                next + 1
            } else {
                total
            };
            &&& next <= total
            &&& submitted == Seq::new(count, |i: int| i as usize)
        }),
    decreases events.len(),
{
    if events.len() > 0 {
        let before = events.drop_last();
        assert(events.take(events.len() - 1) =~= before);
        assert(after_events(total, events.take(events.len() - 1)).0 < total);
        assert forall|n: int| 0 <= n < before.len() implies (#[trigger] after_events(
            total,
            before.take(n),
        )).0 < total by {
            assert(before.take(n) =~= events.take(n));
        }
        law_each_transaction_is_submitted_once(total, before);
    }
    let (next, submitted) = after_events(total, events);
    let count = if next < total {
        next + 1
    } else {
        total
    };
    assert(submitted =~= Seq::new(count, |i: int| i as usize));
}

/// The transaction whose turn it is to be submitted, and how many there are.
pub struct Submitter {
    pub next: usize,
    pub total: usize,
}

impl Submitter {
    /// The first thing to do.
    pub fn start(packed: &Packed) -> (r: (Submitter, SubmitAction))
        ensures
            r.0.next == 0,
            r.0.total == packed@.len(),
            r.1 == submit_or_done(0, packed@.len()),
    {
        let total: usize = packed.transactions.len();
        let action = if total > 0 {
            SubmitAction::Submit(0)
        } else {
            SubmitAction::Done
        };
        (Submitter { next: 0, total }, action)
    }

    /// The next thing to do, or why the transaction was not accepted.
    pub fn advance<E>(&mut self, event: SubmitEvent<E>) -> (r: Result<SubmitAction, E>)
        requires
            old(self).next < old(self).total,
        ensures
            final(self).total == old(self).total,
            final(self).next == after_event(
                old(self).next as nat,
                old(self).total as nat,
                event,
            ).0,
            match r {
                Ok(action) => after_event(
                    old(self).next as nat,
                    old(self).total as nat,
                    event,
                ).1 == Some(action),
                Err(e) => event == SubmitEvent::Refused(e),
            },
    {
        match event {
            SubmitEvent::Accepted => Ok(SubmitAction::Confirm),
            SubmitEvent::Refused(e) => Err(e),
            SubmitEvent::Missing => Ok(SubmitAction::WaitAndConfirm),
            SubmitEvent::Found => {
                self.next = self.next + 1;
                if self.next < self.total {
                    Ok(SubmitAction::Submit(self.next))
                } else {
                    Ok(SubmitAction::Done)
                }
            },
        }
    }
}

} // verus!
