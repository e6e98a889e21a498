//! The last known state of accounts, by address.
use vstd::prelude::*;

use dashmap::DashMap;

use crate::liquidator::LiquidatorError;
use crate::pubkey::Pubkey;

verus! {

/// An account of the ledger.
#[derive(Clone, Debug, PartialEq, Eq)]
pub struct Account {
    pub lamports: u64,
    pub data: Vec<u8>,
    pub owner: Pubkey,
    pub executable: bool,
    pub rent_epoch: u64,
}

/// An account with the slot at which it was read.
#[derive(Clone, Debug, PartialEq, Eq)]
pub struct AccountState {
    pub account: Account,
    pub slot: u64,
}

/// The values of an [`AccountState`].
pub struct AccountView {
    pub lamports: u64,
    pub data: Seq<u8>,
    pub owner: Seq<u8>,
    pub executable: bool,
    pub rent_epoch: u64,
    pub slot: u64,
}

impl View for AccountState {
    type V = AccountView;

    open spec fn view(&self) -> AccountView {
        AccountView {
            lamports: self.account.lamports,
            data: self.account.data@,
            owner: self.account.owner@,
            executable: self.account.executable,
            rent_epoch: self.account.rent_epoch,
            slot: self.slot,
        }
    }
}

/// The concurrent map of the `dashmap` crate.
#[verifier::external_type_specification]
#[verifier::external_body]
#[verifier::reject_recursive_types(K)]
#[verifier::reject_recursive_types(V)]
#[verifier::reject_recursive_types(S)]
pub struct ExDashMap<K, V, S>(dashmap::DashMap<K, V, S>);

/// The fields of an [`AccountState`] in their order.
pub type Entry = (u64, Vec<u8>, [u8; 32], bool, u64, u64);

/// The values of an [`Entry`].
pub open spec fn entry_view(entry: Entry) -> AccountView {
    AccountView {
        lamports: entry.0,
        data: entry.1@,
        owner: entry.2@,
        executable: entry.3,
        rent_epoch: entry.4,
        slot: entry.5,
    }
}

/// No accounts.
pub open spec fn no_accounts() -> Map<Seq<u8>, AccountView> {
    Map::empty()
}

/// What a map holds, by the bytes of the address.
pub uninterp spec fn cached(map: DashMap<[u8; 32], Entry>) -> Map<Seq<u8>, AccountView>;

/// `dashmap::DashMap::new`: an empty map.
#[verifier::external_body]
fn cache_new() -> (r: DashMap<[u8; 32], Entry>)
    ensures
        cached(r) == no_accounts(),
{
    DashMap::new()
}

/// `dashmap::DashMap::get` and a copy of the value: nothing where the key is not in the map.
#[verifier::external_body]
fn cache_get(map: &DashMap<[u8; 32], Entry>, key: &[u8; 32]) -> (r: Option<Entry>)
    ensures
        r is Some <==> cached(*map).dom().contains(key@),
        r is Some ==> entry_view(r->Some_0) == cached(*map)[key@],
{
    map.get(key).map(|held| held.value().clone())
}

/// `dashmap::DashMap::insert`: the key is in the map with the value, in place of one that it
/// had; no other key changes.
#[verifier::external_body]
fn cache_insert(map: &mut DashMap<[u8; 32], Entry>, key: [u8; 32], entry: Entry)
    ensures
        cached(*final(map)) == cached(*old(map)).insert(key@, entry_view(entry)),
{
    map.insert(key, entry);
}

/// The bytes of addresses.
pub open spec fn bytes_of_keys(keys: Seq<[u8; 32]>) -> Seq<Seq<u8>> {
    keys.map_values(|key: [u8; 32]| key@)
}

/// `dashmap::DashMap::iter` and the key of each entry: every key of the map once, in an order
/// that is left open.
#[verifier::external_body]
fn cache_keys(map: &DashMap<[u8; 32], Entry>) -> (r: Vec<[u8; 32]>)
    ensures
        bytes_of_keys(r@).no_duplicates(),
        bytes_of_keys(r@).to_set() == cached(*map).dom(),
{
    map.iter().map(|entry| *entry.key()).collect()
}

/// The addresses of bytes.
pub(crate) fn keys_of_bytes(bytes: &Vec<[u8; 32]>) -> (r: Vec<Pubkey>)
    ensures
        r@.map_values(|key: Pubkey| key@) == bytes_of_keys(bytes@),
{
    let mut keys: Vec<Pubkey> = Vec::new();
    let mut i: usize = 0;
    while i < bytes.len()
        invariant
            i <= bytes@.len(),
            keys@.len() == i,
            forall|j: int| 0 <= j < i ==> (#[trigger] keys@[j]).bytes == bytes@[j],
        decreases bytes@.len() - i,
    {
        keys.push(Pubkey { bytes: bytes[i] });
        i = i + 1;
    }
    assert(keys@.map_values(|key: Pubkey| key@) =~= bytes_of_keys(bytes@));
    keys
}

/// The last known state of accounts.
pub struct AccountsCache {
    map: DashMap<[u8; 32], Entry>,
}

impl View for AccountsCache {
    type V = Map<Seq<u8>, AccountView>;

    closed spec fn view(&self) -> Map<Seq<u8>, AccountView> {
        cached(self.map)
    }
}

impl AccountsCache {
    pub fn default() -> (r: Self)
        ensures
            r@ == no_accounts(),
    {
        AccountsCache { map: cache_new() }
    }

    pub fn new() -> (r: Self)
        ensures
            r@ == no_accounts(),
    {
        AccountsCache { map: cache_new() }
    }

    pub fn get(&self, key: &Pubkey) -> (r: Option<AccountState>)
        ensures
            r is Some <==> self@.dom().contains(key@),
            r is Some ==> r->Some_0@ == self@[key@],
    {
        match cache_get(&self.map, &key.bytes) {
            Some((lamports, data, owner, executable, rent_epoch, slot)) => Some(
                AccountState {
                    account: Account {
                        lamports,
                        data,
                        owner: Pubkey { bytes: owner },
                        executable,
                        rent_epoch,
                    },
                    slot,
                },
            ),
            None => None,
        }
    }

    /// The addresses of all accounts, each once, in an order that is left open.
    pub fn keys(&self) -> (r: Vec<Pubkey>)
        ensures
            r@.map_values(|key: Pubkey| key@).no_duplicates(),
            r@.map_values(|key: Pubkey| key@).to_set() == self@.dom(),
    {
        keys_of_bytes(&cache_keys(&self.map))
    }

    /// Never fails.
    pub fn insert(&mut self, key: Pubkey, data: AccountState) -> (r: Result<(), LiquidatorError>)
        ensures
            r is Ok,
            final(self)@ == old(self)@.insert(key@, data@),
    {
        let account = data.account;
        let entry: Entry = (
            account.lamports,
            account.data,
            account.owner.bytes,
            account.executable,
            account.rent_epoch,
            data.slot,
        );
        cache_insert(&mut self.map, key.bytes, entry);
        Ok(())
    }
}

/// A read after a write gives back what was written, and what was there under other addresses.
pub proof fn law_read_after_write(
    before: Map<Seq<u8>, AccountView>,
    key: Seq<u8>,
    state: AccountView,
    other: Seq<u8>,
)
    ensures
        before.insert(key, state).dom().contains(key),
        before.insert(key, state)[key] == state,
        other != key ==> before.insert(key, state).dom().contains(other) == before.dom().contains(
            other,
        ),
        other != key && before.dom().contains(other) ==> before.insert(key, state)[other]
            == before[other],
{
}

} // verus!
