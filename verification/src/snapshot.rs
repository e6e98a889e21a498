//! The group and the liquidator's own account, as they were last read.
//!
//! A refresh asks for the group first and for the liquidator only where the group was there.
use vstd::prelude::*;

use crate::utils::{account_body, holds_account, law_account_is_told_by_its_first_bytes};

verus! {

/// How the data of a kind of account is told: the bytes that it starts with, and the size of
/// what follows them.
#[derive(Clone, Copy, Debug)]
pub struct Layout {
    pub discriminator: [u8; 8],
    pub size: usize,
}

/// Whether account data is of a layout.
pub open spec fn is_laid_out(data: Seq<u8>, layout: Layout) -> bool {
    holds_account(data, layout.discriminator@, layout.size as int)
}

/// The body of account data of a layout.
pub open spec fn body_of(data: Seq<u8>, layout: Layout) -> Seq<u8> {
    data.subrange(8, 8 + layout.size)
}

/// The bodies of the accounts, each `None` until it was read.
pub struct Snapshot {
    pub cypher_group: Option<Vec<u8>>,
    pub cypher_liqor: Option<Vec<u8>>,
}

/// What an account was last read as.
pub open spec fn read_as(account: Option<Vec<u8>>) -> Option<Seq<u8>> {
    match account {
        Some(body) => Some(body@),
        None => None,
    }
}

/// The reply to a request for an account: its data, `None` where there is no such account.
pub type AccountReply<E> = Result<Option<Vec<u8>>, E>;

/// What is read from a reply: what was known, unless the reply holds an account.
pub open spec fn after_reply<E>(
    known: Option<Vec<u8>>,
    reply: AccountReply<E>,
    layout: Layout,
) -> Option<Seq<u8>> {
    match reply {
        Ok(Some(data)) => Some(body_of(data@, layout)),
        _ => read_as(known),
    }
}

/// Whether a reply holds no account of another layout.
pub open spec fn reply_fits<E>(reply: AccountReply<E>, layout: Layout) -> bool {
    match reply {
        Ok(Some(data)) => is_laid_out(data@, layout),
        _ => true,
    }
}

/// What follows the reply for the group.
pub enum Refresh {
    FetchLiqor,
    Done,
}

impl Snapshot {
    /// Nothing was read yet.
    pub fn new() -> (r: Self)
        ensures
            r.cypher_group is None,
            r.cypher_liqor is None,
    {
        Snapshot { cypher_group: None, cypher_liqor: None }
    }

    /// Takes in the reply for the group, and says whether the liquidator is to be asked for.
    /// There is no outcome, and nothing changes, where the data is not that of a group.
    pub fn take_group<E>(&mut self, reply: AccountReply<E>, layout: &Layout) -> (r: Option<
        Result<Refresh, E>,
    >)
        ensures
            final(self).cypher_liqor == old(self).cypher_liqor,
            r is Some <==> reply_fits(reply, *layout),
            r is None ==> final(self).cypher_group == old(self).cypher_group,
            r is Some ==> read_as(final(self).cypher_group) == after_reply(
                old(self).cypher_group,
                reply,
                *layout,
            ),
            r is Some ==> match reply {
                Ok(Some(_)) => r->Some_0 == Ok::<Refresh, E>(Refresh::FetchLiqor),
                Ok(None) => r->Some_0 == Ok::<Refresh, E>(Refresh::Done),
                Err(e) => r->Some_0 == Err::<Refresh, E>(e),
            },
    {
        match reply {
            Ok(Some(data)) => {
                let body = account_body(&data, &layout.discriminator, layout.size)?;
                self.cypher_group = Some(body);
                Some(Ok(Refresh::FetchLiqor))
            },
            Ok(None) => Some(Ok(Refresh::Done)),
            Err(e) => Some(Err(e)),
        }
    }

    /// Takes in the reply for the liquidator. There is no outcome, and nothing changes, where
    /// the data is not that of a user.
    pub fn take_liqor<E>(&mut self, reply: AccountReply<E>, layout: &Layout) -> (r: Option<
        Result<(), E>,
    >)
        ensures
            final(self).cypher_group == old(self).cypher_group,
            r is Some <==> reply_fits(reply, *layout),
            r is None ==> final(self).cypher_liqor == old(self).cypher_liqor,
            r is Some ==> read_as(final(self).cypher_liqor) == after_reply(
                old(self).cypher_liqor,
                reply,
                *layout,
            ),
            r is Some ==> match reply {
                Ok(_) => r->Some_0 is Ok,
                Err(e) => r->Some_0 == Err::<(), E>(e),
            },
    {
        match reply {
            Ok(Some(data)) => {
                let body = account_body(&data, &layout.discriminator, layout.size)?;
                self.cypher_liqor = Some(body);
                Some(Ok(()))
            },
            Ok(None) => Some(Ok(())),
            Err(e) => Some(Err(e)),
        }
    }
}

/// What was read once is not forgotten: no reply makes a known account unknown.
pub proof fn law_known_stays_known<E>(
    known: Option<Vec<u8>>,
    reply: AccountReply<E>,
    layout: Layout,
)
    requires
        known is Some,
    ensures
        after_reply(known, reply, layout) is Some,
{
}

/// A reply with an account of the layout is read as what follows its first eight bytes, as much
/// as the layout says; any other reply leaves what was known. A reply fits unless it holds an
/// account that starts otherwise or is too short.
pub proof fn law_reply_is_read_behind_its_first_bytes<E>(
    known: Option<Vec<u8>>,
    reply: AccountReply<E>,
    layout: Layout,
)
    ensures
        match reply {
            Ok(Some(data)) => {
                &&& reply_fits(reply, layout) <==> data@.len() >= 8 + layout.size && forall|i: int|
                    0 <= i < 8 ==> data@[i] == #[trigger] layout.discriminator@[i]
                &&& reply_fits(reply, layout) ==> {
                    let body = after_reply(known, reply, layout);
                    &&& body is Some && body->Some_0.len() == layout.size
                    &&& forall|i: int|
                        0 <= i < layout.size ==> #[trigger] body->Some_0[i] == data@[8 + i]
                }
            },
            _ => {
                &&& reply_fits(reply, layout)
                &&& after_reply(known, reply, layout) is Some <==> known is Some
                &&& known is Some ==> after_reply(known, reply, layout)->Some_0 == known->Some_0@
            },
        },
{
    if let Ok(Some(data)) = reply {
        law_account_is_told_by_its_first_bytes(data@, layout.discriminator, layout.size as int);
    }
}

/// What an account was read as is its body.
pub proof fn law_account_is_read_as_its_body(account: Option<Vec<u8>>)
    ensures
        read_as(account) is Some <==> account is Some,
        account is Some ==> read_as(account)->Some_0 == account->Some_0@,
{
}

} // verus!
