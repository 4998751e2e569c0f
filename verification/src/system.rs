//! The system pallet: owner of the current block number and of the per-account
//! nonce, the counter of how many extrinsics each account has submitted.
//!
//! An account that was never seen reads as nonce zero, and the first
//! `inc_nonce` for it yields one.

use crate::storage::StorageMap;
use vstd::prelude::*;

verus! {

/// The abstract state of the system pallet.
pub ghost struct SystemView {
    pub block_number: u32,
    pub nonce: Map<Seq<char>, u32>,
}

/// The nonce recorded for `who`, zero for accounts that never submitted.
pub open spec fn nonce_of(nonces: Map<Seq<char>, u32>, who: Seq<char>) -> u32 {
    if nonces.contains_key(who) {
        nonces[who]
    } else {
        0u32
    }
}

/// The pallet owning low-level bookkeeping: block number and nonces.
#[derive(Debug)]
pub struct Pallet {
    block_number: u32,
    nonce: StorageMap<u32>,
}

impl View for Pallet {
    type V = SystemView;

    closed spec fn view(&self) -> SystemView {
        SystemView { block_number: self.block_number, nonce: self.nonce@ }
    }
}

impl Pallet {
    /// The structural invariant of the nonce store.
    pub closed spec fn wf(&self) -> bool {
        self.nonce.wf()
    }

    /// A fresh pallet: block number zero and no nonce recorded.
    pub fn new() -> (r: Self)
        ensures
            r.wf(),
            r@.block_number == 0,
            r@.nonce == Map::<Seq<char>, u32>::empty(),
    {
        Pallet { block_number: 0, nonce: StorageMap::new() }
    }

    /// The current block number.
    pub fn block_number(&self) -> (r: u32)
        ensures
            r == self@.block_number,
    {
        self.block_number
    }

    /// Increases the block number by one.
    pub fn inc_block_number(&mut self)
        requires
            old(self).wf(),
            old(self)@.block_number < u32::MAX,
        ensures
            final(self).wf(),
            final(self)@.block_number == old(self)@.block_number + 1,
            final(self)@.nonce == old(self)@.nonce,
    {
        self.block_number = self.block_number + 1;
    }

    /// Increments the nonce of `who`, recording one more submitted extrinsic.
    pub fn inc_nonce(&mut self, who: String)
        requires
            old(self).wf(),
            nonce_of(old(self)@.nonce, who@) < u32::MAX,
        ensures
            final(self).wf(),
            final(self)@.nonce == old(self)@.nonce.insert(
                who@,
                (nonce_of(old(self)@.nonce, who@) + 1) as u32,
            ),
            final(self)@.block_number == old(self)@.block_number,
    {
        let prev: u32 = match self.nonce.get(&who) {
            Some(n) => *n,
            None => 0,
        };
        self.nonce.insert(who, prev + 1);
    }

    /// The nonce of `who`, zero for accounts that never submitted.
    pub fn get_nonce(&self, who: String) -> (r: u32)
        requires
            self.wf(),
        ensures
            r == nonce_of(self@.nonce, who@),
    {
        match self.nonce.get(&who) {
            Some(n) => *n,
            None => 0,
        }
    }
}

} // verus!
