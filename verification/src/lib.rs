//! BABE, the consensus engine of a blockchain runtime: collects on-chain randomness from VRF
//! outputs, manages epoch transitions and handles reports of equivocation.
//!
//! [`module::Module`] holds what is kept from block to block. What a method of it does is stated
//! over [`state::State`], the mathematical content of the module, and what follows for the
//! module as a whole is proved in [`laws`]. [`behaviour`] and [`layout`] tell what the steps and
//! the encodings mean, and [`results`] what callers can rely on of each operation.

pub mod behaviour;
pub mod bytes;
pub mod codec;
pub mod config;
pub mod crypto;
pub mod digests;
pub mod dispatch;
pub mod epoch;
pub mod equivocation;
pub mod inherents;
pub mod laws;
pub mod layout;
pub mod module;
pub mod offence;
pub mod randomness;
pub mod results;
pub mod state;

pub use config::{ConstU128, ConstU32, ConstU64, Get, Moment, Trait};
pub use crypto::{AuthorityId, AuthoritySignature, BabeKey, PUBLIC_KEY_LENGTH};
pub use digests::{ConsensusEngineId, DigestItem, RawBabePreDigest, BABE_ENGINE_ID, VRF_OUTPUT_LENGTH};
pub use dispatch::{DispatchError, RawOrigin};
pub use epoch::{BabeAuthorityWeight, ConsensusLog, Epoch};
pub use equivocation::{EquivocationProof, EquivocationReport, Header, OffenceReport, UnsignedTransaction};
pub use inherents::{
    BabeInherentData, InherentDataProvider, InherentError, InherentType, INHERENT_IDENTIFIER,
};
pub use module::{Module, TimestampCall};
pub use offence::{BabeEquivocationOffence, Perbill};
pub use randomness::RANDOMNESS_LENGTH;
