//! The proof-of-existence pallet: owner of the mapping from claimed content to
//! the account that claimed it first. A content value has at most one owner;
//! ownership is set by creation and cleared only by the owner's revocation.

use crate::storage::StorageMap;
use crate::support::{DispatchError, DispatchResult};
use vstd::prelude::*;

verus! {

/// The owner recorded for `claim`, if any.
pub open spec fn owner_of(claims: Map<Seq<char>, Seq<char>>, claim: Seq<char>) -> Option<
    Seq<char>,
> {
    if claims.contains_key(claim) {
        Some(claims[claim])
    } else {
        None
    }
}

/// The mapping after creating a claim, and the operation's outcome.
pub open spec fn spec_create_claim(
    claims: Map<Seq<char>, Seq<char>>,
    caller: Seq<char>,
    claim: Seq<char>,
) -> (Map<Seq<char>, Seq<char>>, DispatchResult) {
    if claims.contains_key(claim) {
        (claims, Err(DispatchError::AlreadyClaimed))
    } else {
        (claims.insert(claim, caller), Ok(()))
    }
}

/// The mapping after revoking a claim, and the operation's outcome.
pub open spec fn spec_revoke_claim(
    claims: Map<Seq<char>, Seq<char>>,
    caller: Seq<char>,
    claim: Seq<char>,
) -> (Map<Seq<char>, Seq<char>>, DispatchResult) {
    if !claims.contains_key(claim) {
        (claims, Err(DispatchError::NoSuchClaim))
    } else if claims[claim] != caller {
        (claims, Err(DispatchError::NotClaimOwner))
    } else {
        (claims.remove(claim), Ok(()))
    }
}

/// The mapping after dispatching `call` on behalf of `caller`, and the outcome.
pub open spec fn spec_dispatch(
    claims: Map<Seq<char>, Seq<char>>,
    caller: Seq<char>,
    call: Call,
) -> (Map<Seq<char>, Seq<char>>, DispatchResult) {
    match call {
        Call::CreateClaim { claim } => spec_create_claim(claims, caller, claim@),
        Call::RevokeClaim { claim } => spec_revoke_claim(claims, caller, claim@),
    }
}

/// The pallet owning the claim storage.
#[derive(Debug)]
pub struct Pallet {
    claims: StorageMap<String>,
}

impl View for Pallet {
    type V = Map<Seq<char>, Seq<char>>;

    closed spec fn view(&self) -> Map<Seq<char>, Seq<char>> {
        self.claims@
    }
}

/// The calls the proof-of-existence pallet exposes to the dispatcher. The
/// caller is supplied by the dispatcher, never carried as a field.
#[derive(Debug)]
pub enum Call {
    CreateClaim { claim: String },
    RevokeClaim { claim: String },
}

impl Pallet {
    /// The structural invariant of the claim store.
    pub closed spec fn wf(&self) -> bool {
        self.claims.wf()
    }

    /// A fresh pallet with no claim recorded.
    pub fn new() -> (r: Self)
        ensures
            r.wf(),
            r@ == Map::<Seq<char>, Seq<char>>::empty(),
    {
        Pallet { claims: StorageMap::new() }
    }

    /// The owner of `claim`, if anyone has claimed it.
    pub fn get_claim(&self, claim: &String) -> (r: Option<&String>)
        requires
            self.wf(),
        ensures
            match r {
                Some(owner) => owner_of(self@, claim@) == Some(owner@),
                None => owner_of(self@, claim@) is None,
            },
    {
        self.claims.get(claim)
    }

    /// Records `caller` as the owner of `claim`. Fails with `AlreadyClaimed`,
    /// changing nothing, when the content already has an owner.
    pub fn create_claim(&mut self, caller: String, claim: String) -> (r: DispatchResult)
        requires
            old(self).wf(),
        ensures
            final(self).wf(),
            final(self)@ == spec_create_claim(old(self)@, caller@, claim@).0,
            r == spec_create_claim(old(self)@, caller@, claim@).1,
    {
        if self.claims.contains_key(&claim) {
            return Err(DispatchError::AlreadyClaimed);
        }
        self.claims.insert(claim, caller);
        Ok(())
    }

    /// Clears the claim on `claim`. Fails with `NoSuchClaim` when the content
    /// has no owner and with `NotClaimOwner` when `caller` is not the owner;
    /// on failure nothing changes.
    pub fn revoke_claim(&mut self, caller: String, claim: String) -> (r: DispatchResult)
        requires
            old(self).wf(),
        ensures
            final(self).wf(),
            final(self)@ == spec_revoke_claim(old(self)@, caller@, claim@).0,
            r == spec_revoke_claim(old(self)@, caller@, claim@).1,
    {
        let caller_owns: bool;
        match self.claims.get(&claim) {
            None => {
                return Err(DispatchError::NoSuchClaim);
            },
            Some(owner) => {
                caller_owns = *owner == caller;
            },
        }
        if caller_owns {
            self.claims.remove(&claim);
            Ok(())
        } else {
            Err(DispatchError::NotClaimOwner)
        }
    }

    /// Routes `call` to the operation that implements it, injecting `caller`.
    pub fn dispatch(&mut self, caller: String, call: Call) -> (r: DispatchResult)
        requires
            old(self).wf(),
        ensures
            final(self).wf(),
            final(self)@ == spec_dispatch(old(self)@, caller@, call).0,
            r == spec_dispatch(old(self)@, caller@, call).1,
    {
        match call {
            Call::CreateClaim { claim } => self.create_claim(caller, claim),
            Call::RevokeClaim { claim } => self.revoke_claim(caller, claim),
        }
    }
}

/// Creating a claim on content that already has an owner fails with
/// `AlreadyClaimed` and leaves the existing owner in place.
pub proof fn lemma_create_claim_already_claimed(
    claims: Map<Seq<char>, Seq<char>>,
    caller: Seq<char>,
    claim: Seq<char>,
)
    requires
        owner_of(claims, claim) is Some,
    ensures
        spec_create_claim(claims, caller, claim).0 == claims,
        spec_create_claim(claims, caller, claim).1 == Err::<(), DispatchError>(
            DispatchError::AlreadyClaimed,
        ),
        owner_of(spec_create_claim(claims, caller, claim).0, claim) == owner_of(claims, claim),
{
}

/// Revoking a claim as anyone but its owner fails with `NotClaimOwner` and
/// leaves the owner in place.
pub proof fn lemma_revoke_claim_not_owner(
    claims: Map<Seq<char>, Seq<char>>,
    caller: Seq<char>,
    claim: Seq<char>,
)
    requires
        owner_of(claims, claim) is Some,
        owner_of(claims, claim) != Some(caller),
    ensures
        spec_revoke_claim(claims, caller, claim).0 == claims,
        spec_revoke_claim(claims, caller, claim).1 == Err::<(), DispatchError>(
            DispatchError::NotClaimOwner,
        ),
{
}

/// Revoking a claim as its owner succeeds, leaves the content unclaimed, and
/// anyone may then claim it afresh.
pub proof fn lemma_revoke_claim_by_owner(
    claims: Map<Seq<char>, Seq<char>>,
    caller: Seq<char>,
    claim: Seq<char>,
)
    requires
        owner_of(claims, claim) == Some(caller),
    ensures
        spec_revoke_claim(claims, caller, claim).1 == Ok::<(), DispatchError>(()),
        owner_of(spec_revoke_claim(claims, caller, claim).0, claim) is None,
        forall|anyone: Seq<char>|
            #![trigger spec_create_claim(spec_revoke_claim(claims, caller, claim).0, anyone, claim)]
            spec_create_claim(spec_revoke_claim(claims, caller, claim).0, anyone, claim).1
                == Ok::<(), DispatchError>(()) && owner_of(
                spec_create_claim(spec_revoke_claim(claims, caller, claim).0, anyone, claim).0,
                claim,
            ) == Some(anyone),
{
}

} // verus!
