//! A minimal deterministic state-transition machine in the style of a modular
//! blockchain runtime: independent state-owning pallets (system, balances,
//! proof-of-existence) are composed into a single [`runtime::Runtime`] that
//! routes calls to the owning pallet and executes blocks of extrinsics with
//! per-extrinsic failure containment.

pub mod balances;
pub mod proof_of_existence;
pub mod runtime;
pub mod storage;
pub mod support;
pub mod system;
