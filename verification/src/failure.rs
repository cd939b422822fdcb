//! The fatal failure classes of a transfer.
//!
//! Only these end a transfer with a failed outcome; transport hiccups and
//! unparseable device text are absorbed where they occur.

use vstd::prelude::*;

verus! {

/// Why a transfer ended without success.
#[derive(Clone, Copy, Debug, PartialEq, Eq, Structural)]
pub enum TransferFailure {
    /// The device sent an explicit "File transfer error" signal.
    DeviceReported,
    /// A chunk index or payload length exceeds what the wire format can
    /// express; the device cannot even be told, since no well-formed frame
    /// can carry the report.
    EncodingLimitExceeded,
    /// The local file could not be opened or read.
    FileIo,
}

} // verus!
