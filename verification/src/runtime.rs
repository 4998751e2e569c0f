//! The composition root: one instance of each pallet, a top-level call type
//! wrapping every pallet's calls, a pure-router dispatch, and the block
//! executor.
//!
//! Block execution first increments the block number, rejects the block with
//! `InvalidBlockNumber` when the header does not carry the new number, and
//! otherwise runs every extrinsic in sequence order: the caller's nonce is
//! incremented before dispatch whether or not the call succeeds, and a failing
//! extrinsic never aborts the block nor disturbs what earlier extrinsics
//! committed.

use crate::balances;
use crate::proof_of_existence;
use crate::support;
use crate::support::{DispatchError, DispatchResult};
use crate::system;
use crate::system::nonce_of;
use vstd::prelude::*;

verus! {

/// The account identifier every pallet shares.
pub type AccountId = String;

/// One top-level call: which pallet it targets, and that pallet's operation.
#[derive(Debug)]
pub enum RuntimeCall {
    Balances(balances::Call),
    ProofOfExistence(proof_of_existence::Call),
}

/// An extrinsic addressed to this runtime.
pub type Extrinsic = support::Extrinsic<AccountId, RuntimeCall>;

/// A header carrying this runtime's block number type.
pub type Header = support::Header<u32>;

/// A block addressed to this runtime.
pub type Block = support::Block<Header, Extrinsic>;

/// The abstract state that dispatching can touch: every pallet's storage.
pub ghost struct StateView {
    pub nonces: Map<Seq<char>, u32>,
    pub balances: Map<Seq<char>, u128>,
    pub claims: Map<Seq<char>, Seq<char>>,
}

/// The state after routing `call` to its owning pallet, and the outcome the
/// pallet reported. Dispatch is a pure router: the result passes through
/// unchanged, and pallets other than the target keep their state.
pub open spec fn spec_dispatch(s: StateView, caller: Seq<char>, call: RuntimeCall) -> (
    StateView,
    DispatchResult,
) {
    match call {
        RuntimeCall::Balances(pallet_call) => {
            let outcome = balances::spec_dispatch(s.balances, caller, pallet_call);
            (StateView { balances: outcome.0, ..s }, outcome.1)
        },
        RuntimeCall::ProofOfExistence(pallet_call) => {
            let outcome = proof_of_existence::spec_dispatch(s.claims, caller, pallet_call);
            (StateView { claims: outcome.0, ..s }, outcome.1)
        },
    }
}

/// The state just before an extrinsic's call is dispatched: the caller's
/// nonce has risen by one, whatever the call's outcome will be.
pub open spec fn record_attempt(s: StateView, e: Extrinsic) -> StateView {
    StateView { nonces: s.nonces.insert(e.caller@, (nonce_of(s.nonces, e.caller@) + 1) as u32), ..s }
}

/// The state after attempting one extrinsic: the caller's nonce rises by one
/// before dispatch, and a failed dispatch leaves the pallets' state alone.
pub open spec fn apply_extrinsic(s: StateView, e: Extrinsic) -> StateView {
    spec_dispatch(record_attempt(s, e), e.caller@, e.call).0
}

/// The outcome that dispatching one extrinsic against state `s` reports.
pub open spec fn extrinsic_outcome(s: StateView, e: Extrinsic) -> DispatchResult {
    spec_dispatch(record_attempt(s, e), e.caller@, e.call).1
}

/// The state after attempting every extrinsic of `es` in sequence order.
pub open spec fn apply_extrinsics(s: StateView, es: Seq<Extrinsic>) -> StateView
    decreases es.len(),
{
    if es.len() == 0 {
        s
    } else {
        apply_extrinsic(apply_extrinsics(s, es.drop_last()), es.last())
    }
}

/// The outcome of every extrinsic of `es` in sequence order, each dispatched
/// against the state the ones before it left behind.
pub open spec fn extrinsic_outcomes(s: StateView, es: Seq<Extrinsic>) -> Seq<DispatchResult>
    decreases es.len(),
{
    if es.len() == 0 {
        Seq::empty()
    } else {
        extrinsic_outcomes(s, es.drop_last()).push(
            extrinsic_outcome(apply_extrinsics(s, es.drop_last()), es.last()),
        )
    }
}

/// How many extrinsics of `es` the account `who` submitted.
pub open spec fn count_caller(es: Seq<Extrinsic>, who: Seq<char>) -> nat
    decreases es.len(),
{
    if es.len() == 0 {
        0nat
    } else {
        count_caller(es.drop_last(), who) + (if es.last().caller@ == who {
            1nat
        } else {
            0nat
        })
    }
}

/// Dispatch never touches the nonce store.
proof fn lemma_dispatch_preserves_nonces(s: StateView, caller: Seq<char>, call: RuntimeCall)
    ensures
        spec_dispatch(s, caller, call).0.nonces == s.nonces,
{
    match call {
        RuntimeCall::Balances(pallet_call) => {
        },
        RuntimeCall::ProofOfExistence(pallet_call) => {
        },
    }
}

/// Attempting a prefix of `es` submits at most as many extrinsics per account
/// as all of `es` does.
proof fn lemma_count_caller_take_le(es: Seq<Extrinsic>, n: int, who: Seq<char>)
    requires
        0 <= n <= es.len(),
    ensures
        count_caller(es.take(n), who) <= count_caller(es, who),
    decreases es.len() - n,
{
    if n == es.len() {
        assert(es.take(n) =~= es);
    } else {
        lemma_count_caller_take_le(es, n + 1, who);
        assert(es.take(n + 1).drop_last() =~= es.take(n));
        assert(es.take(n + 1).last() == es[n]);
    }
}

/// One more extrinsic attempted means one more submission counted for its
/// caller and none for anyone else.
proof fn lemma_count_caller_take_succ(es: Seq<Extrinsic>, n: int, who: Seq<char>)
    requires
        0 <= n < es.len(),
    ensures
        count_caller(es.take(n + 1), who) == count_caller(es.take(n), who) + (
        if es[n].caller@ == who {
            1nat
        } else {
            0nat
        }),
{
    assert(es.take(n + 1).drop_last() =~= es.take(n));
    assert(es.take(n + 1).last() == es[n]);
}

/// Attempting one more extrinsic extends the fold by one step.
proof fn lemma_apply_extrinsics_take_succ(s: StateView, es: Seq<Extrinsic>, n: int)
    requires
        0 <= n < es.len(),
    ensures
        apply_extrinsics(s, es.take(n + 1)) == apply_extrinsic(
            apply_extrinsics(s, es.take(n)),
            es[n],
        ),
{
    assert(es.take(n + 1).drop_last() =~= es.take(n));
    assert(es.take(n + 1).last() == es[n]);
}

/// Attempting one more extrinsic records one more outcome.
proof fn lemma_extrinsic_outcomes_take_succ(s: StateView, es: Seq<Extrinsic>, n: int)
    requires
        0 <= n < es.len(),
    ensures
        extrinsic_outcomes(s, es.take(n + 1)) == extrinsic_outcomes(s, es.take(n)).push(
            extrinsic_outcome(apply_extrinsics(s, es.take(n)), es[n]),
        ),
{
    assert(es.take(n + 1).drop_last() =~= es.take(n));
    assert(es.take(n + 1).last() == es[n]);
}

/// Nonce accounting reflects every attempt: after a sequence of extrinsics is
/// attempted, each account's nonce has risen by exactly the number of
/// extrinsics it submitted, whether or not their calls succeeded.
pub proof fn lemma_nonce_counts_every_attempt(s: StateView, es: Seq<Extrinsic>, who: Seq<char>)
    requires
        nonce_of(s.nonces, who) + count_caller(es, who) <= u32::MAX,
    ensures
        nonce_of(apply_extrinsics(s, es).nonces, who) == nonce_of(s.nonces, who) + count_caller(
            es,
            who,
        ),
    decreases es.len(),
{
    if es.len() == 0 {
    } else {
        let prefix = es.drop_last();
        let e = es.last();
        lemma_nonce_counts_every_attempt(s, prefix, who);
        let s1 = apply_extrinsics(s, prefix);
        lemma_dispatch_preserves_nonces(record_attempt(s1, e), e.caller@, e.call);
    }
}

/// An account with no prior activity reads as balance zero and nonce zero.
pub proof fn lemma_fresh_account_defaults(
    balances: Map<Seq<char>, u128>,
    nonces: Map<Seq<char>, u32>,
    who: Seq<char>,
)
    requires
        !balances.contains_key(who),
        !nonces.contains_key(who),
    ensures
        balances::balance_of(balances, who) == 0,
        nonce_of(nonces, who) == 0,
{
}

/// The runtime: one instance of each pallet, owned exclusively.
#[derive(Debug)]
pub struct Runtime {
    pub system: system::Pallet,
    pub balances: balances::Pallet,
    pub proof_of_existence: proof_of_existence::Pallet,
}

impl Runtime {
    /// The structural invariants of every pallet's storage.
    pub open spec fn wf(&self) -> bool {
        self.system.wf() && self.balances.wf() && self.proof_of_existence.wf()
    }

    /// The abstract state that dispatching can touch.
    pub open spec fn state(&self) -> StateView {
        StateView {
            nonces: self.system@.nonce,
            balances: self.balances@,
            claims: self.proof_of_existence@,
        }
    }

    /// A fresh runtime: block number zero and every store empty.
    pub fn new() -> (r: Self)
        ensures
            r.wf(),
            r.system@.block_number == 0,
            r.system@.nonce == Map::<Seq<char>, u32>::empty(),
            r.balances@ == Map::<Seq<char>, u128>::empty(),
            r.proof_of_existence@ == Map::<Seq<char>, Seq<char>>::empty(),
    {
        Runtime {
            system: system::Pallet::new(),
            balances: balances::Pallet::new(),
            proof_of_existence: proof_of_existence::Pallet::new(),
        }
    }

    /// Routes `runtime_call` to the pallet that owns it, injecting `caller`,
    /// and passes the pallet's outcome through unchanged.
    pub fn dispatch(&mut self, caller: AccountId, runtime_call: RuntimeCall) -> (r: DispatchResult)
        requires
            old(self).wf(),
        ensures
            final(self).wf(),
            final(self).state() == spec_dispatch(old(self).state(), caller@, runtime_call).0,
            r == spec_dispatch(old(self).state(), caller@, runtime_call).1,
            final(self).system@ == old(self).system@,
    {
        match runtime_call {
            RuntimeCall::Balances(pallet_call) => self.balances.dispatch(caller, pallet_call),
            RuntimeCall::ProofOfExistence(pallet_call) => self.proof_of_existence.dispatch(
                caller,
                pallet_call,
            ),
        }
    }

    /// Executes one block. The block number always rises by one; a header that
    /// does not carry the new number fails the whole block with
    /// `InvalidBlockNumber` before any extrinsic runs. Otherwise every
    /// extrinsic is attempted in order and the call reports success, whatever
    /// the individual outcomes.
    pub fn execute_block(&mut self, block: Block) -> (r: DispatchResult)
        requires
            old(self).wf(),
            old(self).system@.block_number < u32::MAX,
            block.header.block_number == old(self).system@.block_number + 1 ==> forall|
                who: Seq<char>,
            |
                nonce_of(old(self).state().nonces, who) + #[trigger] count_caller(
                    block.extrinsics@,
                    who,
                ) <= u32::MAX,
        ensures
            final(self).wf(),
            final(self).system@.block_number == old(self).system@.block_number + 1,
            block.header.block_number != old(self).system@.block_number + 1 ==> r == Err::<
                (),
                DispatchError,
            >(DispatchError::InvalidBlockNumber) && final(self).state() == old(self).state(),
            block.header.block_number == old(self).system@.block_number + 1 ==> r == Ok::<
                (),
                DispatchError,
            >(()) && final(self).state() == apply_extrinsics(
                old(self).state(),
                block.extrinsics@,
            ),
    {
        match self.execute_block_with_report(block) {
            Ok(_outcomes) => Ok(()),
            Err(e) => Err(e),
        }
    }

    /// Executes one block exactly as `execute_block` does, and on success also
    /// hands back every extrinsic's outcome in sequence order, so that the
    /// caller can report the failed ones with their position in the block.
    pub fn execute_block_with_report(&mut self, block: Block) -> (r: Result<
        Vec<DispatchResult>,
        DispatchError,
    >)
        requires
            old(self).wf(),
            old(self).system@.block_number < u32::MAX,
            block.header.block_number == old(self).system@.block_number + 1 ==> forall|
                who: Seq<char>,
            |
                nonce_of(old(self).state().nonces, who) + #[trigger] count_caller(
                    block.extrinsics@,
                    who,
                ) <= u32::MAX,
        ensures
            final(self).wf(),
            final(self).system@.block_number == old(self).system@.block_number + 1,
            block.header.block_number != old(self).system@.block_number + 1 ==> r == Err::<
                Vec<DispatchResult>,
                DispatchError,
            >(DispatchError::InvalidBlockNumber) && final(self).state() == old(self).state(),
            block.header.block_number == old(self).system@.block_number + 1 ==> (r matches Ok(
                outcomes,
            ) && outcomes@ == extrinsic_outcomes(old(self).state(), block.extrinsics@))
                && final(self).state() == apply_extrinsics(old(self).state(), block.extrinsics@),
    {
        self.system.inc_block_number();
        if block.header.block_number != self.system.block_number() {
            return Err(DispatchError::InvalidBlockNumber);
        }
        let ghost s0 = self.state();
        let ghost all = block.extrinsics@;
        let support::Block { header: _header, extrinsics } = block;
        let mut extrinsics = extrinsics;
        let mut outcomes: Vec<DispatchResult> = Vec::new();
        let ghost done: int = 0;
        while extrinsics.len() > 0
            invariant
                self.wf(),
                0 <= done <= all.len(),
                extrinsics@ == all.skip(done),
                self.state() == apply_extrinsics(s0, all.take(done)),
                outcomes@ == extrinsic_outcomes(s0, all.take(done)),
                self.system@.block_number == old(self).system@.block_number + 1,
                forall|who: Seq<char>|
                    nonce_of(s0.nonces, who) + #[trigger] count_caller(all, who) <= u32::MAX,
            decreases extrinsics.len(),
        {
            let ext = extrinsics.remove(0);
            proof {
                assert(all.skip(done)[0] == all[done]);
                assert(extrinsics@ =~= all.skip(done + 1));
                let who = ext.caller@;
                lemma_count_caller_take_le(all, done + 1, who);
                lemma_count_caller_take_succ(all, done, who);
                lemma_nonce_counts_every_attempt(s0, all.take(done), who);
            }
            self.system.inc_nonce(ext.caller.clone());
            let outcome = self.dispatch(ext.caller, ext.call);
            outcomes.push(outcome);
            proof {
                lemma_apply_extrinsics_take_succ(s0, all, done);
                lemma_extrinsic_outcomes_take_succ(s0, all, done);
                assert(self.state() == apply_extrinsic(apply_extrinsics(s0, all.take(done)), ext));
                done = done + 1;
            }
        }
        proof {
            assert(all.take(done) =~= all);
        }
        Ok(outcomes)
    }
}

} // verus!
