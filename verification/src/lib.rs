//! Verifiable attributes registry.
//!
//! A registry is a class of non-fungible tokens. Creating a registry stores
//! the list of document fields that every mint of the class must prove, plus
//! one field that binds the token to the registry. Minting checks the proofs
//! supplied for a token against those fields and against an anchored document.

pub mod hashing;
pub mod token;
pub mod types;
pub mod pallet;
pub mod laws;

pub use pallet::{get_document_root, MintRequest, Pallet, ProofCheck};
pub use token::TokenId;
pub use types::{
    ensure_signed_or_root, AccountId, AssetId, CompleteProof, DispatchError, Error, Event, GenesisConfig,
    MintInfo, Origin, Proof, RegistryId, RegistryInfo, H256, NFTS_PREFIX,
};
