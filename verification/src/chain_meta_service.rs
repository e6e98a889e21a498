//! The last known block hash and slot of the chain.
use vstd::prelude::*;

verus! {

/// The last known block hash and slot.
#[derive(Clone, Copy, Debug)]
pub struct ChainMetaService {
    pub recent_blockhash: [u8; 32],
    pub latest_slot: u64,
}

impl ChainMetaService {
    /// Nothing is known yet: both are zero.
    pub fn default() -> (r: Self)
        ensures
            r.recent_blockhash@ == Seq::new(32, |i: int| 0u8),
            r.latest_slot == 0,
    {
        let r = ChainMetaService { recent_blockhash: [0u8; 32], latest_slot: 0 };
        assert(r.recent_blockhash@ =~= Seq::new(32, |i: int| 0u8));
        r
    }

    /// A service that knows nothing yet.
    pub fn new() -> (r: Self)
        ensures
            r.recent_blockhash@ == Seq::new(32, |i: int| 0u8),
            r.latest_slot == 0,
    {
        ChainMetaService::default()
    }

    /// Takes in the reply to a request for the block hash: a failed request changes nothing.
    pub fn update_chain_meta<E>(&mut self, reply: Result<[u8; 32], E>) -> (r: Result<(), E>)
        ensures
            final(self).latest_slot == old(self).latest_slot,
            reply is Ok ==> r is Ok && final(self).recent_blockhash == reply->Ok_0,
            reply is Err ==> r == Err::<(), E>(reply->Err_0) && final(self).recent_blockhash
                == old(self).recent_blockhash,
    {
        match reply {
            Ok(hash) => {
                self.recent_blockhash = hash;
                Ok(())
            },
            Err(e) => Err(e),
        }
    }

    /// Takes in the reply to a request for the slot: a failed request changes nothing.
    pub fn update_slot<E>(&mut self, reply: Result<u64, E>) -> (r: Result<(), E>)
        ensures
            final(self).recent_blockhash == old(self).recent_blockhash,
            reply is Ok ==> r is Ok && final(self).latest_slot == reply->Ok_0,
            reply is Err ==> r == Err::<(), E>(reply->Err_0) && final(self).latest_slot == old(
                self,
            ).latest_slot,
    {
        match reply {
            Ok(slot) => {
                self.latest_slot = slot;
                Ok(())
            },
            Err(e) => Err(e),
        }
    }

    pub fn get_latest_blockhash(&self) -> (r: [u8; 32])
        ensures
            r == self.recent_blockhash,
    {
        self.recent_blockhash
    }

    pub fn get_latest_slot(&self) -> (r: u64)
        ensures
            r == self.latest_slot,
    {
        self.latest_slot
    }
}

} // verus!
