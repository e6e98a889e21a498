//! The clusters, and the groups with their tokens, oracles and markets.
use vstd::prelude::*;

verus! {

#[derive(Debug, Default)]
pub struct CypherConfig {
    pub clusters: Clusters,
    pub groups: Vec<CypherGroupConfig>,
}

#[derive(Debug, Default)]
pub struct Clusters {
    pub devnet: ClusterConfig,
    pub mainnet: ClusterConfig,
}

#[derive(Debug, Default)]
pub struct ClusterConfig {
    pub rpc_url: String,
    pub pubsub_url: String,
}

#[derive(Debug, Default)]
pub struct CypherGroupConfig {
    pub cluster: String,
    pub name: String,
    pub quote_symbol: String,
    pub address: String,
    pub program_id: String,
    pub serum_program_id: String,
    pub tokens: Vec<CypherTokenConfig>,
    pub oracles: Vec<CypherOracleConfig>,
    pub markets: Vec<CypherMarketConfig>,
}

#[derive(Debug, Default)]
pub struct CypherTokenConfig {
    pub symbol: String,
    pub mint: String,
    pub token_index: usize,
}

#[derive(Debug, Default)]
pub struct CypherOracleConfig {
    pub symbol: String,
    pub address: String,
}

#[derive(Debug, Default)]
pub struct CypherMarketConfig {
    pub name: String,
    pub base_symbol: String,
    pub quote_symbol: String,
    pub market_type: String,
    pub pair_base_symbol: String,
    pub pair_quote_symbol: String,
    pub address: String,
    pub base_decimals: u8,
    pub quote_decimals: u8,
    pub market_index: usize,
    pub bids: String,
    pub asks: String,
    pub event_queue: String,
}

/// The first item that is wanted.
pub open spec fn first_match<T>(items: Seq<T>, wanted: spec_fn(T) -> bool) -> Option<T>
    decreases items.len(),
{
    if items.len() == 0 {
        None
    } else if wanted(items[0]) {
        Some(items[0])
    } else {
        first_match(items.drop_first(), wanted)
    }
}

/// A lookup finds an item exactly where one is wanted, and then the one that comes first.
pub proof fn law_first_match<T>(items: Seq<T>, wanted: spec_fn(T) -> bool)
    ensures
        first_match(items, wanted) is None <==> forall|i: int|
            0 <= i < items.len() ==> !wanted(#[trigger] items[i]),
        first_match(items, wanted) is Some ==> exists|i: int|
            0 <= i < items.len() && #[trigger] items[i] == first_match(items, wanted)->Some_0
                && wanted(items[i]) && forall|j: int| 0 <= j < i ==> !wanted(#[trigger] items[j]),
    decreases items.len(),
{
    if items.len() > 0 && !wanted(items[0]) {
        let rest = items.drop_first();
        law_first_match(rest, wanted);
        assert(forall|i: int| 0 <= i < rest.len() ==> #[trigger] rest[i] == items[i + 1]);
        assert(forall|i: int| 1 <= i < items.len() ==> #[trigger] items[i] == rest[i - 1]);
        if first_match(rest, wanted) is Some {
            let k = choose|k: int|
                0 <= k < rest.len() && #[trigger] rest[k] == first_match(rest, wanted)->Some_0
                    && wanted(rest[k]) && forall|j: int|
                    0 <= j < k ==> !wanted(#[trigger] rest[j]);
            assert(items[k + 1] == first_match(items, wanted)->Some_0);
            assert forall|j: int| 0 <= j < k + 1 implies !wanted(#[trigger] items[j]) by {
                if j > 0 {
                    assert(items[j] == rest[j - 1]);
                }
            }
        }
    }
}

/// One step of a lookup that goes through the items in order.
proof fn lemma_first_match_step<T>(items: Seq<T>, wanted: spec_fn(T) -> bool, i: int)
    requires
        0 <= i < items.len(),
    ensures
        first_match(items.skip(i), wanted) == if wanted(items[i]) {
            Some(items[i])
        } else {
            first_match(items.skip(i + 1), wanted)
        },
{
    assert(items.skip(i)[0] == items[i]);
    assert(items.skip(i).drop_first() =~= items.skip(i + 1));
}

/// The groups of a cluster.
pub open spec fn group_of_cluster(cluster: Seq<char>) -> spec_fn(CypherGroupConfig) -> bool {
    |g: CypherGroupConfig| g.cluster@ == cluster
}

/// The markets of a name.
pub open spec fn market_of_name(name: Seq<char>) -> spec_fn(CypherMarketConfig) -> bool {
    |m: CypherMarketConfig| m.name@ == name
}

/// The markets of an index.
pub open spec fn market_of_index(idx: usize) -> spec_fn(CypherMarketConfig) -> bool {
    |m: CypherMarketConfig| m.market_index == idx
}

/// The tokens of an index.
pub open spec fn token_of_index(idx: usize) -> spec_fn(CypherTokenConfig) -> bool {
    |t: CypherTokenConfig| t.token_index == idx
}

/// The tokens of a symbol.
pub open spec fn token_of_symbol(symbol: Seq<char>) -> spec_fn(CypherTokenConfig) -> bool {
    |t: CypherTokenConfig| t.symbol@ == symbol
}

/// The oracles of a symbol.
pub open spec fn oracle_of_symbol(symbol: Seq<char>) -> spec_fn(CypherOracleConfig) -> bool {
    |o: CypherOracleConfig| o.symbol@ == symbol
}

/// A lookup finds the first item that is wanted; a negative number stands for none.
proof fn lemma_first_match_is<T>(items: Seq<T>, wanted: spec_fn(T) -> bool, c: int)
    requires
        c < items.len(),
        0 <= c ==> wanted(items[c]),
        forall|i: int| 0 <= i < items.len() && (i < c || c < 0) ==> !wanted(#[trigger] items[i]),
    ensures
        first_match(items, wanted) == if 0 <= c {
            Some(items[c])
        } else {
            None
        },
{
    law_first_match(items, wanted);
    if 0 <= c {
        assert(wanted(items[c]));
        let k = choose|k: int|
            0 <= k < items.len() && #[trigger] items[k] == first_match(items, wanted)->Some_0
                && wanted(items[k]) && forall|j: int| 0 <= j < k ==> !wanted(#[trigger] items[j]);
        assert(k == c);
    }
}

/// The group of a cluster is the first with that cluster; a negative number stands for none.
pub proof fn law_group_is_first_of_cluster(config: &CypherConfig, cluster: Seq<char>, c: int)
    requires
        c < config.groups@.len(),
        0 <= c ==> config.groups@[c].cluster@ == cluster,
        forall|i: int|
            0 <= i < config.groups@.len() && (i < c || c < 0) ==> (#[trigger] config.groups@[i]).cluster@ != cluster,
    ensures
        config.group(cluster) == if 0 <= c {
            Some(config.groups@[c])
        } else {
            None
        },
{
    lemma_first_match_is(config.groups@, group_of_cluster(cluster), c);
}

/// The market of a name is the first with that name; a negative number stands for none.
pub proof fn law_market_is_first_of_name(group: &CypherGroupConfig, name: Seq<char>, c: int)
    requires
        c < group.markets@.len(),
        0 <= c ==> group.markets@[c].name@ == name,
        forall|i: int|
            0 <= i < group.markets@.len() && (i < c || c < 0) ==> (#[trigger] group.markets@[i]).name@ != name,
    ensures
        first_match(group.markets@, market_of_name(name)) == if 0 <= c {
            Some(group.markets@[c])
        } else {
            None
        },
{
    lemma_first_match_is(group.markets@, market_of_name(name), c);
}

/// The market of an index is the first with that index; a negative number stands for none.
pub proof fn law_market_is_first_of_index(group: &CypherGroupConfig, idx: usize, c: int)
    requires
        c < group.markets@.len(),
        0 <= c ==> group.markets@[c].market_index == idx,
        forall|i: int|
            0 <= i < group.markets@.len() && (i < c || c < 0) ==> (#[trigger] group.markets@[i]).market_index != idx,
    ensures
        first_match(group.markets@, market_of_index(idx)) == if 0 <= c {
            Some(group.markets@[c])
        } else {
            None
        },
{
    lemma_first_match_is(group.markets@, market_of_index(idx), c);
}

/// The token of an index is the first with that index; a negative number stands for none.
pub proof fn law_token_is_first_of_index(group: &CypherGroupConfig, idx: usize, c: int)
    requires
        c < group.tokens@.len(),
        0 <= c ==> group.tokens@[c].token_index == idx,
        forall|i: int|
            0 <= i < group.tokens@.len() && (i < c || c < 0) ==> (#[trigger] group.tokens@[i]).token_index != idx,
    ensures
        first_match(group.tokens@, token_of_index(idx)) == if 0 <= c {
            Some(group.tokens@[c])
        } else {
            None
        },
{
    lemma_first_match_is(group.tokens@, token_of_index(idx), c);
}

/// The token of a symbol is the first with that symbol; a negative number stands for none.
pub proof fn law_token_is_first_of_symbol(group: &CypherGroupConfig, symbol: Seq<char>, c: int)
    requires
        c < group.tokens@.len(),
        0 <= c ==> group.tokens@[c].symbol@ == symbol,
        forall|i: int|
            0 <= i < group.tokens@.len() && (i < c || c < 0) ==> (#[trigger] group.tokens@[i]).symbol@ != symbol,
    ensures
        first_match(group.tokens@, token_of_symbol(symbol)) == if 0 <= c {
            Some(group.tokens@[c])
        } else {
            None
        },
{
    lemma_first_match_is(group.tokens@, token_of_symbol(symbol), c);
}

/// The oracle of a symbol is the first with that symbol; a negative number stands for none.
pub proof fn law_oracle_is_first_of_symbol(group: &CypherGroupConfig, symbol: Seq<char>, c: int)
    requires
        c < group.oracles@.len(),
        0 <= c ==> group.oracles@[c].symbol@ == symbol,
        forall|i: int|
            0 <= i < group.oracles@.len() && (i < c || c < 0) ==> (#[trigger] group.oracles@[i]).symbol@ != symbol,
    ensures
        first_match(group.oracles@, oracle_of_symbol(symbol)) == if 0 <= c {
            Some(group.oracles@[c])
        } else {
            None
        },
{
    lemma_first_match_is(group.oracles@, oracle_of_symbol(symbol), c);
}

fn same_text(a: &String, b: &str) -> (r: bool)
    ensures
        r == (a@ == b@),
{
    *a == b.to_owned()
}

/// The first item that passes a test for what is wanted.
fn find_first<T, F: Fn(&T) -> bool>(items: &Vec<T>, test: F, wanted: Ghost<spec_fn(T) -> bool>) -> (r:
    Option<&T>)
    requires
        forall|item: &T| call_requires(test, (item,)),
        forall|item: &T, b: bool| call_ensures(test, (item,), b) ==> b == (wanted@)(*item),
    ensures
        r is Some <==> first_match(items@, wanted@) is Some,
        r is Some ==> *r->Some_0 == first_match(items@, wanted@)->Some_0,
{
    let mut i: usize = 0;
    assert(items@.skip(0) =~= items@);
    while i < items.len()
        invariant
            i <= items@.len(),
            forall|item: &T| call_requires(test, (item,)),
            forall|item: &T, b: bool| call_ensures(test, (item,), b) ==> b == (wanted@)(*item),
            first_match(items@, wanted@) == first_match(items@.skip(i as int), wanted@),
        decreases items@.len() - i,
    {
        proof {
            lemma_first_match_step(items@, wanted@, i as int);
        }
        if test(&items[i]) {
            return Some(&items[i]);
        }
        i = i + 1;
    }
    None
}

impl CypherConfig {
    /// The first group of a cluster.
    pub open spec fn group(&self, cluster: Seq<char>) -> Option<CypherGroupConfig> {
        first_match(self.groups@, group_of_cluster(cluster))
    }

    /// The settings of a cluster; every name but that of the main cluster means the
    /// development cluster.
    pub fn get_config_for_cluster(&self, cluster: &str) -> (r: &ClusterConfig)
        ensures
            cluster@ == "mainnet"@ ==> *r == self.clusters.mainnet,
            cluster@ != "mainnet"@ ==> *r == self.clusters.devnet,
    {
        if cluster.to_owned() == "mainnet".to_owned() {
            &self.clusters.mainnet
        } else {
            &self.clusters.devnet
        }
    }

    pub fn get_group(&self, cluster: &str) -> (r: Option<&CypherGroupConfig>)
        ensures
            r is Some <==> self.group(cluster@) is Some,
            r is Some ==> *r->Some_0 == self.group(cluster@)->Some_0,
    {
        let test = |g: &CypherGroupConfig| -> (b: bool)
            ensures
                b == (g.cluster@ == cluster@),
            { same_text(&g.cluster, cluster) };
        find_first(&self.groups, test, Ghost(group_of_cluster(cluster@)))
    }
}

impl CypherGroupConfig {
    pub fn get_market(&self, market: &str) -> (r: Option<&CypherMarketConfig>)
        ensures
            r is Some <==> first_match(self.markets@, market_of_name(market@)) is Some,
            r is Some ==> *r->Some_0 == first_match(
                self.markets@,
                market_of_name(market@),
            )->Some_0,
    {
        let test = |item: &CypherMarketConfig| -> (b: bool)
            ensures
                b == (item.name@ == market@),
            { same_text(&item.name, market) };
        find_first(&self.markets, test, Ghost(market_of_name(market@)))
    }

    pub fn get_market_by_index(&self, idx: usize) -> (r: Option<&CypherMarketConfig>)
        ensures
            r is Some <==> first_match(self.markets@, market_of_index(idx)) is Some,
            r is Some ==> *r->Some_0 == first_match(
                self.markets@,
                market_of_index(idx),
            )->Some_0,
    {
        let test = |item: &CypherMarketConfig| -> (b: bool)
            ensures
                b == (item.market_index == idx),
            { item.market_index == idx };
        find_first(&self.markets, test, Ghost(market_of_index(idx)))
    }

    pub fn get_token_by_index(&self, idx: usize) -> (r: Option<&CypherTokenConfig>)
        ensures
            r is Some <==> first_match(self.tokens@, token_of_index(idx)) is Some,
            r is Some ==> *r->Some_0 == first_match(
                self.tokens@,
                token_of_index(idx),
            )->Some_0,
    {
        let test = |item: &CypherTokenConfig| -> (b: bool)
            ensures
                b == (item.token_index == idx),
            { item.token_index == idx };
        find_first(&self.tokens, test, Ghost(token_of_index(idx)))
    }

    pub fn get_oracle(&self, symbol: &str) -> (r: Option<&CypherOracleConfig>)
        ensures
            r is Some <==> first_match(self.oracles@, oracle_of_symbol(symbol@)) is Some,
            r is Some ==> *r->Some_0 == first_match(
                self.oracles@,
                oracle_of_symbol(symbol@),
            )->Some_0,
    {
        let test = |item: &CypherOracleConfig| -> (b: bool)
            ensures
                b == (item.symbol@ == symbol@),
            { same_text(&item.symbol, symbol) };
        find_first(&self.oracles, test, Ghost(oracle_of_symbol(symbol@)))
    }

    pub fn get_mint_for_symbol(&self, symbol: &str) -> (r: Option<&CypherTokenConfig>)
        ensures
            r is Some <==> first_match(self.tokens@, token_of_symbol(symbol@)) is Some,
            r is Some ==> *r->Some_0 == first_match(
                self.tokens@,
                token_of_symbol(symbol@),
            )->Some_0,
    {
        let test = |item: &CypherTokenConfig| -> (b: bool)
            ensures
                b == (item.symbol@ == symbol@),
            { same_text(&item.symbol, symbol) };
        find_first(&self.tokens, test, Ghost(token_of_symbol(symbol@)))
    }

    pub fn get_market_index(&self, market: &str) -> (r: Option<usize>)
        ensures
            r is Some <==> first_match(self.markets@, market_of_name(market@)) is Some,
            r is Some ==> r->Some_0 == first_match(
                self.markets@,
                market_of_name(market@),
            )->Some_0.market_index,
    {
        match self.get_market(market) {
            Some(m) => Some(m.market_index),
            None => None,
        }
    }
}

} // verus!
