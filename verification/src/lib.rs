//! Receiver-driven UDP chunk-transfer protocol: frame encoding with its
//! XOR-fold checksum, classification of device response lines, parsing of
//! chunk requests, and the transfer state machine that answers them.

pub mod checksum;
pub mod chunk;
pub mod engine;
pub mod failure;
pub mod frame;
pub mod response;
pub mod text;

pub use checksum::xor8checksum;
pub use chunk::{parse_chunk_number, ChunkParseResult};
pub use engine::{TransferEngine, TransferState};
pub use failure::TransferFailure;
pub use response::{Response, ResponseStatus};
