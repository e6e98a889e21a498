# cypher_liquidator

A liquidator for groups of the cypher protocol: it watches the users of a group, decides whose
collateral or market collateral is to be liquidated, computes ahead what a liquidation would move,
and submits it.

The decisions are a library, `src/`, written in Verus: each function states what it returns, and
the statements are proved. `app/` is the program around it: arguments, files, requests to the
cluster, tasks.

| Module | What it holds |
| --- | --- |
| `number` | unsigned fixed-point numbers over `jet_proto_math` |
| `pubkey`, `keypair`, `text` | addresses, key pairs and wallets, integers in text |
| `states` | what is read of groups and users |
| `config` | clusters, groups, tokens and markets, and the lookups in them |
| `simulation` | what a liquidation would move |
| `mints` | the tokens that a liquidation trades |
| `collateral_check` | whether a user is to be liquidated, and what comes first |
| `liquidator` | what is done about a user |
| `sweep` | the same for a liquidator that goes through all users by itself |
| `submission` | packing instructions into transactions, as many each as fit, and submitting them |
| `cypher_account_service`, `accounts_cache`, `snapshot`, `chain_meta_service` | what is known of users, accounts and the chain |
| `utils` | open orders, account data, derived addresses, instructions |

The accounts themselves are read by `app/`, which fills in the types of `states`. A function whose
inputs may not go together returns an `Option`; beside a function that asks for inputs that do,
one named `try_..` tests them first.

Laws that relate several functions are public proof functions whose names begin with `law_`.
