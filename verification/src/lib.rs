//! Block payload codec of a sequencer that orders transactions of many
//! namespaces into one block.
//!
//! A block is two byte strings: the namespace payloads, which are dispersed,
//! and the namespace table, which travels beside them as metadata. Every byte
//! string is a valid block: readers clamp what they read and never fail.

pub mod commitment;
pub mod decoding;
pub mod encoding;
pub mod grouping;
pub mod iter;
pub mod ns_payload;
pub mod ns_table;
pub mod payload;
pub mod round_trip;
pub mod transaction;
pub mod tx_proof;
pub mod tx_proof_laws;
pub mod uint_bytes;
pub mod vid;

pub use iter::{Index, Iter};
pub use ns_payload::{NsPayload, NsPayloadBuilder, TxIndex};
pub use ns_table::{NsIndex, NsPayloadRange, NsTable, NsTableBuilder};
pub use payload::{Error, Payload, PayloadByteLen};
pub use transaction::{NamespaceId, Transaction};
pub use tx_proof::{TxProof, TxProofClaims, TxProofWindows};
pub use uint_bytes::W;
pub use vid::VidCommon;
