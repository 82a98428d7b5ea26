//! Ethereum-compatible transaction codec and JSON-RPC request canonicalization.
pub mod rlp_frame;
pub mod scalar;
pub mod types;
pub mod codec;
pub mod text;
pub mod block;
pub mod filter;
pub mod network;
pub mod web3_types;
