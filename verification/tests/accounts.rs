use cypher_liquidator::accounts_cache::{Account, AccountState, AccountsCache};
use cypher_liquidator::chain_meta_service::ChainMetaService;
use cypher_liquidator::cypher_account_service::{
    batches_of, begin_all_accounts, continue_all_accounts, users_to_send, AccountsStep,
    CypherAccountService, ACCOUNTS_INTERVAL, ADDRESSES_INTERVAL,
};
use cypher_liquidator::keypair::{
    load_keypair, parse_wallet, try_load_keypair, KeypairError,
};
use cypher_liquidator::pubkey::Pubkey;
use cypher_liquidator::snapshot::{Layout, Refresh, Snapshot};
use cypher_liquidator::sweep::store_users;
use cypher_liquidator::utils::{
    account_body, derive_cypher_user_address, get_zero_copy_account,
    try_derive_cypher_user_address,
};

fn key(n: u8) -> Pubkey {
    Pubkey { bytes: [n; 32] }
}

fn state(lamports: u64, data: Vec<u8>, slot: u64) -> AccountState {
    AccountState {
        account: Account { lamports, data, owner: key(5), executable: true, rent_epoch: 6 },
        slot,
    }
}

const LAYOUT: Layout = Layout { discriminator: [1, 2, 3, 4, 5, 6, 7, 8], size: 2 };

fn user_data(a: u8, b: u8) -> Vec<u8> {
    vec![1, 2, 3, 4, 5, 6, 7, 8, a, b, 99]
}

#[test]
fn cache_gives_back_what_was_written() {
    let mut cache = AccountsCache::new();
    assert_eq!(cache.get(&key(1)), None);
    assert!(cache.insert(key(1), state(10, vec![1, 2], 7)).is_ok());
    assert!(cache.insert(key(2), state(20, vec![], 8)).is_ok());
    assert_eq!(cache.get(&key(1)), Some(state(10, vec![1, 2], 7)));
    assert!(cache.insert(key(1), state(11, vec![3], 9)).is_ok());
    assert_eq!(cache.get(&key(1)), Some(state(11, vec![3], 9)));
    assert_eq!(cache.get(&key(2)), Some(state(20, vec![], 8)));
    assert_eq!(AccountsCache::default().get(&key(1)), None);
}

#[test]
fn cache_lists_its_addresses() {
    let mut cache = AccountsCache::new();
    assert!(cache.keys().is_empty());
    for n in [3, 1, 3, 2] {
        assert!(cache.insert(key(n), state(1, vec![], 1)).is_ok());
    }
    let mut bytes: Vec<u8> = cache.keys().iter().map(|k| k.bytes[31]).collect();
    bytes.sort();
    assert_eq!(bytes, vec![1, 2, 3]);
}

#[test]
fn users_are_stored_together_or_not_at_all() {
    let mut cache = AccountsCache::new();
    let good = || state(1, user_data(1, 1), 1);
    assert!(!store_users(&mut cache, vec![(key(1), good()), (key(2), state(1, vec![], 1))], &LAYOUT));
    assert_eq!(cache.get(&key(1)), None);
    let later = state(2, user_data(2, 2), 1);
    assert!(store_users(&mut cache, vec![(key(1), good()), (key(1), later.clone())], &LAYOUT));
    assert_eq!(cache.get(&key(1)), Some(later));
}

#[test]
fn chain_meta_keeps_what_it_knows() {
    let mut meta = ChainMetaService::new();
    assert_eq!(meta.get_latest_blockhash(), [0; 32]);
    assert_eq!(meta.get_latest_slot(), 0);
    assert_eq!(meta.update_chain_meta::<u8>(Ok([7; 32])), Ok(()));
    assert_eq!(meta.update_chain_meta(Err("down")), Err("down"));
    assert_eq!(meta.get_latest_blockhash(), [7; 32]);
    assert_eq!(meta.update_slot::<u8>(Ok(12)), Ok(()));
    assert_eq!(meta.update_slot(Err("down")), Err("down"));
    assert_eq!(meta.get_latest_slot(), 12);
}

#[test]
fn new_users_are_counted_once() {
    let mut service = CypherAccountService::new(key(3));
    assert_eq!(service.get_all_program_accounts(&vec![key(1), key(2), key(1)]), 2);
    assert_eq!(service.get_all_program_accounts(&vec![key(1), key(2), key(1)]), 0);
    assert_eq!(service.get_all_program_accounts(&vec![key(4), key(2)]), 1);
    let batches = service.get_all_accounts();
    assert_eq!(batches.len(), 1);
    let mut bytes: Vec<u8> = batches[0].iter().map(|k| k.bytes[0]).collect();
    bytes.sort();
    assert_eq!(bytes, vec![1, 2, 4]);
    assert!(CypherAccountService::default().get_all_accounts().is_empty());
}

#[test]
fn batches_are_full_but_for_the_last() {
    for (n, sizes) in [
        (0u8, vec![]),
        (1, vec![1]),
        (99, vec![99]),
        (100, vec![100]),
        (101, vec![100, 1]),
        (250, vec![100, 100, 50]),
    ] {
        let keys: Vec<Pubkey> = (0..n).map(key).collect();
        let batches = batches_of(&keys);
        assert_eq!(batches.iter().map(|b| b.len()).collect::<Vec<_>>(), sizes);
        assert_eq!(batches.concat(), keys);
    }
}

#[test]
fn batches_are_read_in_order() {
    assert!(matches!(begin_all_accounts::<u8>(0), AccountsStep::Done(Ok(()))));
    assert!(matches!(begin_all_accounts::<u8>(2), AccountsStep::Request(0)));
    // users that could not be handed on do not matter
    let failed = || Ok::<Vec<bool>, u8>(vec![true, false]);
    assert!(matches!(continue_all_accounts(0, 2, failed()), AccountsStep::Request(1)));
    assert!(matches!(continue_all_accounts(1, 2, failed()), AccountsStep::Done(Ok(()))));
    assert!(matches!(continue_all_accounts(0, 2, Err(4u8)), AccountsStep::Done(Err(4))));
}

#[test]
fn accounts_are_read_more_often() {
    assert_eq!((ACCOUNTS_INTERVAL, ADDRESSES_INTERVAL), (5, 60));
}

#[test]
fn program_accounts_of_the_group() {
    let service = CypherAccountService::new(key(3));
    let request = service.program_accounts_request();
    assert_eq!(request.offset, 8);
    assert_eq!(request.data_size, 2208);
    assert!(!request.with_data);
    assert_eq!(request.bytes, solana_sdk::pubkey::Pubkey::from([3u8; 32]).to_string());
    assert_eq!(Pubkey::from_base58(&request.bytes), Some(key(3)));
}

#[test]
fn missing_accounts_are_passed_over() {
    let keys = vec![key(1), key(2), key(3)];
    let users =
        users_to_send(&keys, &vec![Some(user_data(7, 8)), None, Some(user_data(9, 10))], &LAYOUT)
            .unwrap();
    assert_eq!(users.len(), 2);
    assert_eq!(users[0].cypher_user_pubkey, key(1));
    assert_eq!(users[0].cypher_user, vec![7, 8]);
    assert_eq!(users[1].cypher_user_pubkey, key(3));
    assert_eq!(users[1].cypher_user, vec![9, 10]);
    assert!(users_to_send(&keys, &vec![Some(vec![0; 20])], &LAYOUT).is_none());
}

#[test]
fn snapshot_is_refreshed_in_order() {
    let mut snapshot = Snapshot::new();
    assert!(matches!(snapshot.take_group(Err(1), &LAYOUT), Some(Err(1))));
    assert!(matches!(snapshot.take_group::<u8>(Ok(None), &LAYOUT), Some(Ok(Refresh::Done))));
    assert!(snapshot.cypher_group.is_none());
    assert!(matches!(
        snapshot.take_group::<u8>(Ok(Some(user_data(1, 2))), &LAYOUT),
        Some(Ok(Refresh::FetchLiqor))
    ));
    assert_eq!(snapshot.cypher_group, Some(vec![1, 2]));
    assert!(snapshot.take_group::<u8>(Ok(Some(vec![1])), &LAYOUT).is_none());
    assert_eq!(snapshot.cypher_group, Some(vec![1, 2]));
    assert!(matches!(snapshot.take_liqor(Err(2), &LAYOUT), Some(Err(2))));
    assert!(matches!(snapshot.take_liqor::<u8>(Ok(None), &LAYOUT), Some(Ok(()))));
    assert!(matches!(
        snapshot.take_liqor::<u8>(Ok(Some(user_data(3, 4))), &LAYOUT),
        Some(Ok(()))
    ));
    assert_eq!(snapshot.cypher_liqor, Some(vec![3, 4]));
    assert_eq!(snapshot.cypher_group, Some(vec![1, 2]));
}

#[test]
fn account_bodies() {
    let disc = [1, 2, 3, 4, 5, 6, 7, 8];
    assert_eq!(account_body(&user_data(1, 2), &disc, 2), Some(vec![1, 2]));
    assert_eq!(account_body(&user_data(1, 2), &disc, 0), Some(vec![]));
    assert_eq!(account_body(&user_data(1, 2), &disc, 4), None);
    assert_eq!(account_body(&user_data(1, 2), &[1, 2, 3, 4, 5, 6, 7, 9], 2), None);
    assert_eq!(account_body(&vec![1, 2], &disc, 0), None);
    assert_eq!(account_body(&user_data(1, 2), &disc, usize::MAX), None);
    assert_eq!(get_zero_copy_account(&user_data(1, 2), &disc, 3), vec![1, 2, 99]);
}

fn wallet(bytes: &[u8]) -> String {
    let list: Vec<String> = bytes.iter().map(|b| b.to_string()).collect();
    format!("[{}]", list.join(","))
}

#[test]
fn wallet_text() {
    assert_eq!(parse_wallet("[1,2,255]"), Some(vec![1, 2, 255]));
    assert_eq!(parse_wallet("1 2,+3"), Some(vec![1, 2, 3]));
    assert_eq!(parse_wallet("[[7]]"), Some(vec![7]));
    for text in ["", "[]", "[1, 2]", "[1,256]", "[1,-2]", "[1,2]\n", "[1,,2]", "a"] {
        assert_eq!(parse_wallet(text), None);
    }
}

#[test]
fn wallet_keypairs() {
    let mut bytes = [3u8; 64];
    bytes[32] = 0x58;
    for b in bytes[33..].iter_mut() {
        *b = 0x66;
    }
    let keypair = load_keypair(&wallet(&bytes)).ok().unwrap();
    assert_eq!(keypair.bytes, bytes);
    assert_eq!(keypair.pubkey().bytes[..], bytes[32..]);
    assert!(try_load_keypair("[1, 2]").is_none());
    assert!(try_load_keypair("[1,2]") == Some(Err(KeypairError::NotAKeypair)));
    // bytes that are no point of the curve
    let mut off = [3u8; 64];
    for b in off[32..].iter_mut() {
        *b = 0;
    }
    off[32] = 2;
    assert_eq!(load_keypair(&wallet(&off)).err(), Some(KeypairError::NotAKeypair));
}

#[test]
fn addresses() {
    assert_eq!(Pubkey::from_base58("11111111111111111111111111111111"), Some(Pubkey::default()));
    assert!(Pubkey::default().is_null());
    assert!(!key(1).is_null());
    assert!(key(1).same(&key(1)) && !key(1).same(&key(2)));
    assert_eq!(Pubkey::from_base58("0"), None);
    assert_eq!(Pubkey::from_base58(""), None);
    assert_eq!(Pubkey::from_base58(&key(200).to_base58()), Some(key(200)));
}

#[test]
fn derived_addresses() {
    let (expected, _) = solana_sdk::pubkey::Pubkey::find_program_address(
        &[b"cypher_user", &[1u8; 32], &[2u8; 32]],
        &solana_sdk::pubkey::Pubkey::from([3u8; 32]),
    );
    let derived = derive_cypher_user_address(b"cypher_user", &key(1), &key(2), &key(3));
    assert_eq!(derived.bytes, expected.to_bytes());
    assert_eq!(
        try_derive_cypher_user_address(b"cypher_user", &key(1), &key(2), &key(3)),
        Some(derived)
    );
    assert_eq!(try_derive_cypher_user_address(&[0; 33], &key(1), &key(2), &key(3)), None);
}
