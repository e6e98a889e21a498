//! The users of a group: which there are, and in which batches their accounts are read.
use vstd::prelude::*;

use dashmap::DashMap;

use crate::accounts_cache::{bytes_of_keys, keys_of_bytes};
use crate::pubkey::{base58_text, null_key, Pubkey};
use crate::snapshot::{body_of, is_laid_out, Layout};
use crate::utils::{account_body, law_account_is_told_by_its_first_bytes};

verus! {

/// How many accounts one request reads at most.
pub const BATCH_SIZE: usize = 100;

/// The offset at which an account of a user names its group.
pub const GROUP_OFFSET: usize = 8;

/// The size of an account of a user.
pub const USER_ACCOUNT_SIZE: u64 = 2208;

/// The seconds between two times that the accounts of the known users are read.
pub const ACCOUNTS_INTERVAL: u64 = 5;

/// The seconds between two times that the addresses of the users are asked for.
pub const ADDRESSES_INTERVAL: u64 = 60;

/// Accounts are read more often than addresses are asked for.
pub proof fn law_accounts_are_read_more_often()
    ensures
        0 < ACCOUNTS_INTERVAL < ADDRESSES_INTERVAL,
{
}

/// A user account with its address.
#[derive(Clone, Debug, PartialEq, Eq)]
pub struct CypherUserWrapper {
    /// The body of the account.
    pub cypher_user: Vec<u8>,
    pub cypher_user_pubkey: Pubkey,
}

/// A request for the accounts of a program: those that hold the given bytes, written in base58,
/// at an offset and have the given size.
#[derive(Clone, Debug, PartialEq, Eq)]
pub struct ProgramAccountsRequest {
    pub offset: usize,
    pub bytes: String,
    pub data_size: u64,
    /// Whether the data of the accounts is to come with their addresses.
    pub with_data: bool,
}

/// Whether a request asks for the users of a group.
pub open spec fn asks_for_users(
    request: ProgramAccountsRequest,
    group: Seq<u8>,
    data_size: u64,
    with_data: bool,
) -> bool {
    &&& request.offset == GROUP_OFFSET
    &&& request.bytes@ == base58_text(group)
    &&& request.data_size == data_size
    &&& request.with_data == with_data
}

/// The request for the users of a group whose accounts have a size.
pub fn users_request(group: &Pubkey, data_size: u64, with_data: bool) -> (r: ProgramAccountsRequest)
    ensures
        asks_for_users(r, group@, data_size, with_data),
{
    ProgramAccountsRequest {
        offset: GROUP_OFFSET,
        bytes: group.to_base58(),
        data_size,
        with_data,
    }
}

/// A request for users asks for accounts that name the group behind their first eight bytes.
pub proof fn law_request_names_the_group(
    request: ProgramAccountsRequest,
    group: Seq<u8>,
    data_size: u64,
    with_data: bool,
)
    requires
        asks_for_users(request, group, data_size, with_data),
    ensures
        request.offset == 8,
        request.bytes@ == base58_text(group),
        request.data_size == data_size,
        request.with_data == with_data,
{
}

/// What a map of addresses holds.
pub uninterp spec fn known(map: DashMap<[u8; 32], bool>) -> Map<Seq<u8>, bool>;

/// No addresses.
pub open spec fn no_keys() -> Map<Seq<u8>, bool> {
    Map::empty()
}

/// `dashmap::DashMap::new`: an empty map.
#[verifier::external_body]
fn known_new() -> (r: DashMap<[u8; 32], bool>)
    ensures
        known(r) == no_keys(),
{
    DashMap::new()
}

/// `dashmap::DashMap::contains_key`: whether the key is in the map.
#[verifier::external_body]
fn known_contains(map: &DashMap<[u8; 32], bool>, key: &[u8; 32]) -> (r: bool)
    ensures
        r == known(*map).dom().contains(key@),
{
    map.contains_key(key)
}

/// `dashmap::DashMap::insert`: the key is in the map with the value, in place of one that it
/// had; no other key changes.
#[verifier::external_body]
fn known_insert(map: &mut DashMap<[u8; 32], bool>, key: [u8; 32], value: bool)
    ensures
        known(*final(map)) == known(*old(map)).insert(key@, value),
{
    map.insert(key, value);
}

/// `dashmap::DashMap::iter` and the key of each entry: every key of the map once, in an order
/// that is left open.
#[verifier::external_body]
fn known_keys(map: &DashMap<[u8; 32], bool>) -> (r: Vec<[u8; 32]>)
    ensures
        bytes_of_keys(r@).no_duplicates(),
        bytes_of_keys(r@).to_set() == known(*map).dom(),
{
    map.iter().map(|entry| *entry.key()).collect()
}

/// The addresses with further ones, each marked as it is added.
pub open spec fn with_keys(map: Map<Seq<u8>, bool>, keys: Seq<Pubkey>) -> Map<Seq<u8>, bool>
    decreases keys.len(),
{
    if keys.len() == 0 {
        map
    } else {
        let before = with_keys(map, keys.drop_last());
        if before.dom().contains(keys.last()@) {
            before
        } else {
            before.insert(keys.last()@, true)
        }
    }
}

/// How many of further addresses are new.
pub open spec fn new_keys(map: Map<Seq<u8>, bool>, keys: Seq<Pubkey>) -> nat
    decreases keys.len(),
{
    if keys.len() == 0 {
        0
    } else if with_keys(map, keys.drop_last()).dom().contains(keys.last()@) {
        new_keys(map, keys.drop_last())
    } else {
        new_keys(map, keys.drop_last()) + 1
    }
}

/// Addresses that are added are known from then on, those that were known stay as they were,
/// and nothing else becomes known.
pub proof fn law_keys_are_kept(map: Map<Seq<u8>, bool>, keys: Seq<Pubkey>, key: Seq<u8>)
    ensures
        with_keys(map, keys).dom().contains(key) <==> map.dom().contains(key) || exists|i: int|
            0 <= i < keys.len() && (#[trigger] keys[i])@ == key,
        map.dom().contains(key) ==> with_keys(map, keys)[key] == map[key],
        with_keys(map, keys).dom().contains(key) && !map.dom().contains(key) ==> with_keys(
            map,
            keys,
        )[key],
    decreases keys.len(),
{
    if keys.len() > 0 {
        let rest = keys.drop_last();
        law_keys_are_kept(map, rest, key);
        if keys.last()@ == key {
            assert(keys[keys.len() - 1]@ == key);
        }
        if exists|i: int| 0 <= i < rest.len() && (#[trigger] rest[i])@ == key {
            let i = choose|i: int| 0 <= i < rest.len() && (#[trigger] rest[i])@ == key;
            assert(keys[i]@ == key);
        }
        if exists|i: int| 0 <= i < keys.len() && (#[trigger] keys[i])@ == key {
            let i = choose|i: int| 0 <= i < keys.len() && (#[trigger] keys[i])@ == key;
            if i < rest.len() {
                assert(rest[i]@ == key);
            }
        }
    }
}

/// The same addresses a second time add nothing.
pub proof fn law_second_time_adds_nothing(map: Map<Seq<u8>, bool>, keys: Seq<Pubkey>)
    ensures
        with_keys(with_keys(map, keys), keys) == with_keys(map, keys),
        new_keys(with_keys(map, keys), keys) == 0,
{
    let once = with_keys(map, keys);
    assert forall|i: int| 0 <= i < keys.len() implies once.dom().contains(
        (#[trigger] keys[i])@,
    ) by {
        law_keys_are_kept(map, keys, keys[i]@);
    }
    lemma_known_keys_add_nothing(once, keys);
}

proof fn lemma_known_keys_add_nothing(map: Map<Seq<u8>, bool>, keys: Seq<Pubkey>)
    requires
        forall|i: int| 0 <= i < keys.len() ==> map.dom().contains((#[trigger] keys[i])@),
    ensures
        with_keys(map, keys) == map,
        new_keys(map, keys) == 0,
    decreases keys.len(),
{
    if keys.len() > 0 {
        assert forall|i: int| 0 <= i < keys.drop_last().len() implies map.dom().contains(
            (#[trigger] keys.drop_last()[i])@,
        ) by {
            assert(keys.drop_last()[i] == keys[i]);
        }
        lemma_known_keys_add_nothing(map, keys.drop_last());
        assert(map.dom().contains(keys[keys.len() - 1]@));
    }
}

/// As many addresses are new as there are more of them afterwards.
pub proof fn law_new_keys_are_counted(map: Map<Seq<u8>, bool>, keys: Seq<Pubkey>)
    requires
        map.dom().finite(),
    ensures
        with_keys(map, keys).dom().finite(),
        with_keys(map, keys).dom().len() == map.dom().len() + new_keys(map, keys),
    decreases keys.len(),
{
    if keys.len() > 0 {
        law_new_keys_are_counted(map, keys.drop_last());
        let before = with_keys(map, keys.drop_last());
        let key = keys.last()@;
        if !before.dom().contains(key) {
            assert(before.insert(key, true).dom() =~= before.dom().insert(key));
        }
    }
}

/// How many batches a number of addresses makes.
pub open spec fn batch_count(n: int) -> int {
    (n + BATCH_SIZE - 1) / (BATCH_SIZE as int)
}

/// The first position behind a batch.
pub open spec fn batch_end(n: int, batch: int) -> int {
    if (batch + 1) * BATCH_SIZE <= n {
        (batch + 1) * BATCH_SIZE
    } else {
        n
    }
}

/// Whether lists are the batches of addresses, in their order: full ones, but for the last.
pub open spec fn are_batches(batches: Seq<Vec<Pubkey>>, keys: Seq<Pubkey>) -> bool {
    &&& batches.len() == batch_count(keys.len() as int)
    &&& forall|b: int|
        0 <= b < batches.len() ==> (#[trigger] batches[b])@ == keys.subrange(
            b * BATCH_SIZE,
            batch_end(keys.len() as int, b),
        )
}

/// The addresses of batches one after the other.
pub open spec fn joined(batches: Seq<Vec<Pubkey>>) -> Seq<Pubkey>
    decreases batches.len(),
{
    if batches.len() == 0 {
        seq![]
    } else {
        joined(batches.drop_last()) + batches.last()@
    }
}

proof fn lemma_joined_prefix(batches: Seq<Vec<Pubkey>>, keys: Seq<Pubkey>, b: int)
    requires
        are_batches(batches, keys),
        0 <= b <= batches.len(),
    ensures
        joined(batches.take(b)) == keys.take(
            if b * BATCH_SIZE <= keys.len() {
                b * BATCH_SIZE
            } else {
                keys.len() as int
            },
        ),
    decreases b,
{
    if b > 0 {
        lemma_joined_prefix(batches, keys, b - 1);
        assert(batches.take(b).drop_last() =~= batches.take(b - 1));
        assert(batches.take(b).last() == batches[b - 1]);
        let n = keys.len() as int;
        assert((b - 1) * BATCH_SIZE < n);
        assert(keys.take((b - 1) * BATCH_SIZE) + keys.subrange(
            (b - 1) * BATCH_SIZE,
            batch_end(n, b - 1),
        ) =~= keys.take(batch_end(n, b - 1)));
    } else {
        assert(batches.take(0) =~= Seq::empty());
        assert(keys.take(0) =~= Seq::empty());
    }
}

/// The batches hold all addresses, each where it was, and no batch is empty or too long.
pub proof fn law_batches_cover(batches: Seq<Vec<Pubkey>>, keys: Seq<Pubkey>)
    requires
        are_batches(batches, keys),
    ensures
        joined(batches) == keys,
        forall|b: int|
            0 <= b < batches.len() ==> 0 < (#[trigger] batches[b])@.len() <= BATCH_SIZE,
{
    let n = keys.len() as int;
    lemma_joined_prefix(batches, keys, batches.len() as int);
    assert(batches.take(batches.len() as int) =~= batches);
    assert(batches.len() * BATCH_SIZE >= n);
    assert(keys.take(n) =~= keys);
    if batches.len() * BATCH_SIZE <= n {
        assert(batches.len() * BATCH_SIZE == n);
    }
    assert forall|b: int| 0 <= b < batches.len() implies 0 < (#[trigger] batches[b])@.len()
        <= BATCH_SIZE by {
        assert(b * BATCH_SIZE < n);
    }
}

/// Each batch but the last holds a hundred addresses, and every address is where its number says.
pub proof fn law_batches_are_full(batches: Seq<Vec<Pubkey>>, keys: Seq<Pubkey>)
    requires
        are_batches(batches, keys),
    ensures
        forall|b: int| 0 <= b < batches.len() - 1 ==> (#[trigger] batches[b])@.len() == 100,
        forall|b: int| 0 <= b < batches.len() ==> 0 < (#[trigger] batches[b])@.len() <= 100,
        forall|b: int, i: int|
            #![trigger batches[b]@[i]]
            0 <= b < batches.len() && 0 <= i < batches[b]@.len() ==> 100 * b + i < keys.len()
                && batches[b]@[i] == keys[100 * b + i],
        keys.len() <= 100 * batches.len() < keys.len() + 100,
{
    law_batches_cover(batches, keys);
    let n = keys.len() as int;
    assert forall|b: int| 0 <= b < batches.len() - 1 implies (#[trigger] batches[b])@.len()
        == 100 by {
        assert((b + 1) * BATCH_SIZE <= n);
    }
    assert forall|b: int, i: int|
        #![trigger batches[b]@[i]]
        0 <= b < batches.len() && 0 <= i < batches[b]@.len() implies 100 * b + i < keys.len()
        && batches[b]@[i] == keys[100 * b + i] by {
        assert(batches[b]@ == keys.subrange(b * BATCH_SIZE, batch_end(n, b)));
        assert(b * BATCH_SIZE < n);
    }
}

/// The batches of addresses.
pub fn batches_of(keys: &Vec<Pubkey>) -> (r: Vec<Vec<Pubkey>>)
    ensures
        are_batches(r@, keys@),
{
    let mut batches: Vec<Vec<Pubkey>> = Vec::new();
    let mut start: usize = 0;
    while start < keys.len()
        invariant
            start <= keys@.len(),
            start == if batches@.len() * BATCH_SIZE <= keys@.len() {
                batches@.len() * BATCH_SIZE
            } else {
                keys@.len() as int
            },
            batches@.len() == batch_count(start as int),
            forall|b: int|
                0 <= b < batches@.len() ==> (#[trigger] batches@[b])@ == keys@.subrange(
                    b * BATCH_SIZE,
                    batch_end(keys@.len() as int, b),
                ),
        decreases keys@.len() - start,
    {
        let stop: usize = if keys.len() - start <= BATCH_SIZE {
            keys.len()
        } else {
            start + BATCH_SIZE
        };
        let mut batch: Vec<Pubkey> = Vec::new();
        let mut i: usize = start;
        while i < stop
            invariant
                start <= i <= stop <= keys@.len(),
                batch@ =~= keys@.subrange(start as int, i as int),
            decreases stop - i,
        {
            batch.push(keys[i]);
            i = i + 1;
        }
        batches.push(batch);
        start = stop;
    }
    batches
}

/// The users among replies to the first so many addresses.
pub open spec fn users_among(
    pubkeys: Seq<Pubkey>,
    accounts: Seq<Option<Vec<u8>>>,
    layout: Layout,
    n: int,
) -> Seq<(Seq<u8>, Seq<u8>)>
    decreases n,
{
    if n <= 0 {
        seq![]
    } else {
        let before = users_among(pubkeys, accounts, layout, n - 1);
        match accounts[n - 1] {
            Some(data) => before.push((pubkeys[n - 1]@, body_of(data@, layout))),
            None => before,
        }
    }
}

/// Whether every account that was there is that of a user.
pub open spec fn all_users(accounts: Seq<Option<Vec<u8>>>, layout: Layout) -> bool {
    forall|i: int|
        0 <= i < accounts.len() ==> match #[trigger] accounts[i] {
            Some(data) => is_laid_out(data@, layout),
            None => true,
        }
}

/// The address and the body of each user.
pub open spec fn wrapped(users: Seq<CypherUserWrapper>) -> Seq<(Seq<u8>, Seq<u8>)> {
    users.map_values(|user: CypherUserWrapper| (user.cypher_user_pubkey@, user.cypher_user@))
}

/// The users among replies are those of the accounts that are there, in their order, each with
/// the address that was asked for and what follows the first eight bytes of its data. The numbers
/// of the replies are what is returned.
pub proof fn law_users_are_those_that_are_there(
    pubkeys: Seq<Pubkey>,
    accounts: Seq<Option<Vec<u8>>>,
    layout: Layout,
    n: int,
) -> (from: Seq<int>)
    requires
        0 <= n <= accounts.len(),
    ensures
        from.len() == users_among(pubkeys, accounts, layout, n).len(),
        forall|k: int|
            #![trigger from[k]]
            0 <= k < from.len() ==> {
                &&& 0 <= from[k] < n
                &&& accounts[from[k]] is Some
                &&& users_among(pubkeys, accounts, layout, n)[k].0 == pubkeys[from[k]]@
                &&& users_among(pubkeys, accounts, layout, n)[k].1
                    == accounts[from[k]]->Some_0@.subrange(8, 8 + layout.size)
            },
        forall|k: int, l: int| 0 <= k < l < from.len() ==> from[k] < from[l],
        forall|i: int| 0 <= i < n && (#[trigger] accounts[i]) is Some ==> from.contains(i),
    decreases n,
{
    if n == 0 {
        seq![]
    } else {
        let before = law_users_are_those_that_are_there(pubkeys, accounts, layout, n - 1);
        if accounts[n - 1] is Some {
            let from = before.push(n - 1);
            assert forall|i: int| 0 <= i < n && (#[trigger] accounts[i]) is Some implies from.contains(
                i,
            ) by {
                if i < n - 1 {
                    let k = choose|k: int| 0 <= k < before.len() && before[k] == i;
                    assert(from[k] == i);
                } else {
                    assert(from[from.len() - 1] == i);
                }
            }
            from
        } else {
            before
        }
    }
}

/// Users are wrapped with their addresses and bodies, and all accounts are those of users exactly
/// where each that is there starts as the layout says and is long enough.
pub proof fn law_users_are_wrapped_as_they_are(
    users: Seq<CypherUserWrapper>,
    accounts: Seq<Option<Vec<u8>>>,
    layout: Layout,
)
    ensures
        wrapped(users).len() == users.len(),
        forall|k: int|
            0 <= k < users.len() ==> #[trigger] wrapped(users)[k] == (
                users[k].cypher_user_pubkey@,
                users[k].cypher_user@,
            ),
        all_users(accounts, layout) <==> forall|i: int|
            #![trigger accounts[i]]
            0 <= i < accounts.len() && accounts[i] is Some ==> accounts[i]->Some_0@.len() >= 8
                + layout.size && forall|j: int|
                0 <= j < 8 ==> accounts[i]->Some_0@[j] == #[trigger] layout.discriminator@[j],
{
    assert forall|i: int| #![trigger accounts[i]] 0 <= i < accounts.len() && accounts[i] is Some
        implies (is_laid_out(accounts[i]->Some_0@, layout) <==> accounts[i]->Some_0@.len() >= 8
        + layout.size && forall|j: int|
        0 <= j < 8 ==> accounts[i]->Some_0@[j] == #[trigger] layout.discriminator@[j]) by {
        law_account_is_told_by_its_first_bytes(
            accounts[i]->Some_0@,
            layout.discriminator,
            layout.size as int,
        );
    }
}

/// The users to hand on from the replies to a batch; an account that is not there is passed
/// over. There are none to hand on where an account is not that of a user.
pub fn users_to_send(
    pubkeys: &Vec<Pubkey>,
    accounts: &Vec<Option<Vec<u8>>>,
    layout: &Layout,
) -> (r: Option<Vec<CypherUserWrapper>>)
    requires
        accounts@.len() <= pubkeys@.len(),
    ensures
        r is Some <==> all_users(accounts@, *layout),
        r is Some ==> wrapped(r->Some_0@) == users_among(
            pubkeys@,
            accounts@,
            *layout,
            accounts@.len() as int,
        ),
{
    let mut users: Vec<CypherUserWrapper> = Vec::new();
    let mut i: usize = 0;
    assert(wrapped(users@) =~= Seq::empty());
    while i < accounts.len()
        invariant
            i <= accounts@.len() <= pubkeys@.len(),
            wrapped(users@) == users_among(pubkeys@, accounts@, *layout, i as int),
            forall|j: int|
                0 <= j < i ==> match #[trigger] accounts@[j] {
                    Some(data) => is_laid_out(data@, *layout),
                    None => true,
                },
        decreases accounts@.len() - i,
    {
        assert(accounts@[i as int] == accounts[i as int]);
        if let Some(data) = &accounts[i] {
            let body = account_body(data, &layout.discriminator, layout.size)?;
            let ghost before = users@;
            let user = CypherUserWrapper { cypher_user: body, cypher_user_pubkey: pubkeys[i] };
            users.push(user);
            assert(wrapped(users@) =~= wrapped(before).push(
                (pubkeys@[i as int]@, body_of(data@, *layout)),
            ));
        }
        i = i + 1;
    }
    Some(users)
}

/// The next step in reading the accounts of the known users.
pub enum AccountsStep<E> {
    /// Ask for the accounts of a batch, and hand on the users among them.
    Request(usize),
    /// All is done, or a batch could not be read.
    Done(Result<(), E>),
}

/// What came of a batch: for each user whether it could be handed on, or why the accounts could
/// not be read.
pub type BatchOutcome<E> = Result<Vec<bool>, E>;

/// The step when it is the turn of a batch among so many.
pub open spec fn request_or_done<E>(batch: nat, batches: nat) -> AccountsStep<E> {
    if batch < batches {
        AccountsStep::Request(batch as usize)
    } else {
        AccountsStep::Done(Ok(()))
    }
}

/// The step after a batch: a batch that could not be read ends it all, and a user that could not
/// be handed on does not.
pub open spec fn step_after_batch<E>(
    batch: nat,
    batches: nat,
    outcome: BatchOutcome<E>,
) -> AccountsStep<E> {
    match outcome {
        Ok(_) => request_or_done(batch + 1, batches),
        Err(e) => AccountsStep::Done(Err(e)),
    }
}

/// The batches that are asked for from one on, in order, and what comes of it in the end, where
/// each batch has a given outcome.
pub open spec fn batches_read<E>(outcomes: Seq<BatchOutcome<E>>, batch: nat) -> (
    Seq<nat>,
    Result<(), E>,
)
    decreases outcomes.len() - batch,
{
    match request_or_done::<E>(batch, outcomes.len()) {
        AccountsStep::Done(r) => (seq![], r),
        AccountsStep::Request(_) => match step_after_batch(
            batch,
            outcomes.len(),
            outcomes[batch as int],
        ) {
            AccountsStep::Done(r) => (seq![batch], r),
            AccountsStep::Request(_) => {
                let rest = batches_read(outcomes, batch + 1);
                (seq![batch] + rest.0, rest.1)
            },
        },
    }
}

/// Where every batch is read, each is asked for once, in order, and reading the accounts
/// succeeds, whether or not the users could be handed on.
pub proof fn law_every_batch_is_asked_for<E>(outcomes: Seq<BatchOutcome<E>>, batch: nat)
    requires
        batch <= outcomes.len() <= usize::MAX,
        forall|i: int| batch <= i < outcomes.len() ==> (#[trigger] outcomes[i]) is Ok,
    ensures
        batches_read(outcomes, batch).0 == Seq::new(
            (outcomes.len() - batch) as nat,
            |i: int| (batch + i) as nat,
        ),
        batches_read(outcomes, batch).1 == Ok::<(), E>(()),
    decreases outcomes.len() - batch,
{
    if batch < outcomes.len() {
        assert(outcomes[batch as int] is Ok);
        law_every_batch_is_asked_for(outcomes, batch + 1);
    }
    assert(batches_read(outcomes, batch).0 =~= Seq::new(
        (outcomes.len() - batch) as nat,
        |i: int| (batch + i) as nat,
    ));
}

/// The first batch that cannot be read ends it: no later one is asked for, and its error is what
/// comes of it.
pub proof fn law_unread_batch_ends_it<E>(outcomes: Seq<BatchOutcome<E>>, batch: nat, unread: int)
    requires
        batch <= unread < outcomes.len() <= usize::MAX,
        forall|i: int| batch <= i < unread ==> (#[trigger] outcomes[i]) is Ok,
        outcomes[unread] is Err,
    ensures
        batches_read(outcomes, batch).0 == Seq::new(
            (unread - batch + 1) as nat,
            |i: int| (batch + i) as nat,
        ),
        batches_read(outcomes, batch).1 == Err::<(), E>(outcomes[unread]->Err_0),
    decreases unread - batch,
{
    if batch < unread {
        assert(outcomes[batch as int] is Ok);
        law_unread_batch_ends_it(outcomes, batch + 1, unread);
    }
    assert(batches_read(outcomes, batch).0 =~= Seq::new(
        (unread - batch + 1) as nat,
        |i: int| (batch + i) as nat,
    ));
}

/// The first step in reading the accounts of so many batches.
pub fn begin_all_accounts<E>(batches: usize) -> (r: AccountsStep<E>)
    ensures
        r == request_or_done::<E>(0, batches as nat),
{
    if batches > 0 {
        AccountsStep::Request(0)
    } else {
        AccountsStep::Done(Ok(()))
    }
}

/// The step in reading the accounts of so many batches after one of them.
pub fn continue_all_accounts<E>(batch: usize, batches: usize, outcome: BatchOutcome<E>) -> (r:
    AccountsStep<E>)
    requires
        batch < batches,
    ensures
        r == step_after_batch(batch as nat, batches as nat, outcome),
{
    match outcome {
        Ok(_) => if batch + 1 < batches {
            AccountsStep::Request(batch + 1)
        } else {
            AccountsStep::Done(Ok(()))
        },
        Err(e) => AccountsStep::Done(Err(e)),
    }
}

/// The known users of a group.
pub struct CypherAccountService {
    map: DashMap<[u8; 32], bool>,
    cypher_group_pubkey: Pubkey,
}

impl View for CypherAccountService {
    type V = Map<Seq<u8>, bool>;

    closed spec fn view(&self) -> Map<Seq<u8>, bool> {
        known(self.map)
    }
}

impl CypherAccountService {
    /// The address of the group.
    pub closed spec fn group(&self) -> Seq<u8> {
        self.cypher_group_pubkey@
    }

    pub fn default() -> (r: Self)
        ensures
            r@ == no_keys(),
            r.group() == null_key(),
    {
        CypherAccountService { map: known_new(), cypher_group_pubkey: Pubkey::default() }
    }

    pub fn new(cypher_group_pubkey: Pubkey) -> (r: Self)
        ensures
            r@ == no_keys(),
            r.group() == cypher_group_pubkey@,
    {
        CypherAccountService { map: known_new(), cypher_group_pubkey }
    }

    /// The request for the addresses of all users of the group.
    pub fn program_accounts_request(&self) -> (r: ProgramAccountsRequest)
        ensures
            asks_for_users(r, self.group(), USER_ACCOUNT_SIZE, false),
    {
        users_request(&self.cypher_group_pubkey, USER_ACCOUNT_SIZE, false)
    }

    /// Takes in the addresses of all users of the group, and says how many are new.
    pub fn get_all_program_accounts(&mut self, accounts: &Vec<Pubkey>) -> (r: usize)
        ensures
            final(self).group() == old(self).group(),
            final(self)@ == with_keys(old(self)@, accounts@),
            r == new_keys(old(self)@, accounts@),
    {
        let mut new_count: usize = 0;
        let mut i: usize = 0;
        let ghost before = self@;
        assert(accounts@.take(0) =~= Seq::empty());
        while i < accounts.len()
            invariant
                i <= accounts@.len(),
                before == old(self)@,
                self.group() == old(self).group(),
                self@ == with_keys(before, accounts@.take(i as int)),
                new_count == new_keys(before, accounts@.take(i as int)),
                new_count <= i,
            decreases accounts@.len() - i,
        {
            let pubkey = accounts[i];
            proof {
                assert(accounts@.take(i + 1).drop_last() =~= accounts@.take(i as int));
                assert(accounts@.take(i + 1).last() == pubkey);
            }
            if !known_contains(&self.map, &pubkey.bytes) {
                known_insert(&mut self.map, pubkey.bytes, true);
                new_count = new_count + 1;
            }
            i = i + 1;
        }
        assert(accounts@.take(accounts@.len() as int) =~= accounts@);
        new_count
    }

    /// The batches in which the accounts of the known users are read: together they are the
    /// known addresses, each once, in an order that is left open.
    pub fn get_all_accounts(&self) -> (r: Vec<Vec<Pubkey>>)
        ensures
            exists|keys: Seq<Pubkey>|
                {
                    &&& #[trigger] are_batches(r@, keys)
                    &&& keys.map_values(|key: Pubkey| key@).no_duplicates()
                    &&& keys.map_values(|key: Pubkey| key@).to_set() == self@.dom()
                },
    {
        let keys = keys_of_bytes(&known_keys(&self.map));
        let batches = batches_of(&keys);
        assert(are_batches(batches@, keys@));
        batches
    }
}

} // verus!
