//! The transfer state machine.
//!
//! The engine owns the file contents for one upload and answers the device's
//! requests: it hands out the file-creation command, waits for the readiness
//! line, and then serves each requested chunk as an encoded frame until the
//! device sends a terminal signal. Flow control is entirely receiver-driven:
//! the engine never sends a chunk unasked and never ends the transfer on its
//! own bookkeeping. The caller performs the sends and receives and feeds
//! each received body back in.

use vstd::prelude::*;
use vstd::slice::slice_subrange;
use vstd::string::StringSliceAdditionalSpecFns;

use crate::chunk::{
    chunk_value, completed_pat, has_chunk_match, parse_chunk_number, transfer_error_pat,
    ChunkParseResult,
};
use crate::failure::TransferFailure;
use crate::frame::{encode_frame, frame_bytes};
use crate::text::{chars_of, contains_seq};

verus! {

/// Chunk payload size in bytes: a 1450-byte link budget minus the 8-byte
/// frame header. The device requests chunks on the same cadence.
pub const CHUNK_SIZE: usize = 1442;

/// Where a transfer stands.
#[derive(Clone, Copy, Debug, PartialEq, Eq, Structural)]
pub enum TransferState {
    /// The file-creation command is still to be sent.
    CreatingFile,
    /// Waiting for the device to report readiness with a line that begins
    /// with "ok".
    AwaitingReady,
    /// Serving chunk requests.
    Transferring,
    /// The device reported the whole transfer completed.
    Completed,
    /// The transfer ended without success.
    Failed(TransferFailure),
}

/// The payload of chunk `n`: the slice of `file` starting at `n` times the
/// chunk size, a whole chunk long where that much remains, else the rest.
pub open spec fn chunk_payload(file: Seq<u8>, n: int) -> Seq<u8> {
    let off = n * 1442;
    let count = if file.len() - off < 1442 {
        file.len() - off
    } else {
        1442
    };
    file.subrange(off, off + count)
}

/// A readiness line: the body begins with "ok".
pub open spec fn body_starts_ok(s: Seq<char>) -> bool {
    s.len() >= 2 && s[0] == 'o' && s[1] == 'k'
}

/// The decimal digits of `n`, most significant first.
pub open spec fn dec_digits(n: nat) -> Seq<u8>
    decreases n,
{
    if n < 10 {
        seq![(n + 48) as u8]
    } else {
        dec_digits(n / 10).push((n % 10 + 48) as u8)
    }
}

/// The file-creation command: `M828 P{size} U:{name}` and two newlines,
/// written out in ASCII byte values.
pub open spec fn create_command_bytes(size: nat, name: Seq<u8>) -> Seq<u8> {
    seq![77u8, 56u8, 50u8, 56u8, 32u8, 80u8]  // "M828 P"
     + dec_digits(size) + seq![32u8, 85u8, 58u8]  // " U:"
     + name + seq![10u8, 10u8]
}

/// Appends the decimal digits of `n` to `out`.
fn push_dec(out: &mut Vec<u8>, n: usize)
    ensures
        final(out)@ == old(out)@ + dec_digits(n as nat),
    decreases n,
{
    if n < 10 {
        out.push((n as u8) + 48);
        proof {
            assert(out@ =~= old(out)@ + dec_digits(n as nat));
        }
    } else {
        push_dec(out, n / 10);
        out.push(((n % 10) as u8) + 48);
        proof {
            assert(out@ =~= old(out)@ + dec_digits(n as nat));
        }
    }
}

/// One upload in progress: the file to send and where the exchange stands.
/// The cursor records how far the served requests reach, for progress
/// display only; it never decides anything.
pub struct TransferEngine {
    /// The contents of the file being sent.
    pub file: Vec<u8>,
    /// Where the transfer stands.
    pub state: TransferState,
    /// End of the last served chunk, in bytes from the start of the file.
    pub progress: u64,
}

impl TransferEngine {
    /// Starts a transfer of `file`, about to issue the file-creation
    /// command.
    pub fn new(file: Vec<u8>) -> (e: TransferEngine)
        ensures
            e.file@ == file@,
            e.state == TransferState::CreatingFile,
            e.progress == 0u64,
    {
        TransferEngine { file, state: TransferState::CreatingFile, progress: 0 }
    }

    /// The file-creation command to send to the device, carrying the file's
    /// byte size and its name.
    pub fn create_file_command(&self, filename: &str) -> (cmd: Vec<u8>)
        ensures
            cmd@ == create_command_bytes(self.file@.len(), filename.spec_bytes()),
    {
        let mut out: Vec<u8> = Vec::new();
        out.push(77);  // 'M'
        out.push(56);  // '8'
        out.push(50);  // '2'
        out.push(56);  // '8'
        out.push(32);  // ' '
        out.push(80);  // 'P'
        let ghost head = out@;
        proof {
            assert(head =~= seq![77u8, 56u8, 50u8, 56u8, 32u8, 80u8]);
        }
        push_dec(&mut out, self.file.len());
        out.push(32);  // ' '
        out.push(85);  // 'U'
        out.push(58);  // ':'
        let name = filename.as_bytes();
        let ghost mid = out@;
        let mut i: usize = 0;
        while i < name.len()
            invariant
                0 <= i <= name@.len(),
                out@ == mid + name@.take(i as int),
            decreases name@.len() - i,
        {
            out.push(name[i]);
            proof {
                assert(mid + name@.take(i + 1) =~= (mid + name@.take(i as int)).push(
                    name@[i as int],
                ));
            }
            i = i + 1;
        }
        proof {
            assert(name@.take(name@.len() as int) =~= name@);
        }
        out.push(10);  // '\n'
        out.push(10);  // '\n'
        proof {
            assert(out@ =~= create_command_bytes(self.file@.len(), filename.spec_bytes()));
        }
        out
    }

    /// Records that the file-creation command went out. The engine proceeds
    /// to await readiness whether or not the send succeeded: the device may
    /// still accept the handshake.
    pub fn command_sent(&mut self)
        requires
            old(self).state == TransferState::CreatingFile,
        ensures
            final(self).state == TransferState::AwaitingReady,
            final(self).file == old(self).file,
            final(self).progress == old(self).progress,
    {
        self.state = TransferState::AwaitingReady;
    }

    /// Takes one body received while awaiting readiness: a body beginning
    /// with "ok" starts the transfer, anything else leaves the engine
    /// waiting.
    pub fn on_ready_line(&mut self, body: &str)
        requires
            old(self).state == TransferState::AwaitingReady,
        ensures
            final(self).file == old(self).file,
            final(self).progress == old(self).progress,
            final(self).state == if body_starts_ok(body@) {
                TransferState::Transferring
            } else {
                TransferState::AwaitingReady
            },
    {
        let v = chars_of(body);
        if v.len() >= 2 && v[0] == 'o' && v[1] == 'k' {
            self.state = TransferState::Transferring;
        }
    }

    /// Takes one body received while transferring and answers it: a chunk
    /// request within the file yields the frame to send; a request past the
    /// end of the file is stale and silently ignored; unparseable text is
    /// ignored; a terminal signal ends the transfer. The transfer ends only
    /// on such a signal, never because some byte count was reached.
    pub fn on_transfer_line(&mut self, body: &str) -> (out: Option<Vec<u8>>)
        requires
            old(self).state == TransferState::Transferring,
        ensures
            final(self).file == old(self).file,
            ({
                let s = body@;
                let f = old(self).file@;
                let unchanged = final(self).state == TransferState::Transferring
                    && final(self).progress == old(self).progress;
                if contains_seq(s, completed_pat()) {
                    final(self).state == TransferState::Completed && out is None
                        && final(self).progress == old(self).progress
                } else if contains_seq(s, transfer_error_pat()) {
                    final(self).state == TransferState::Failed(TransferFailure::DeviceReported)
                        && out is None && final(self).progress == old(self).progress
                } else if !has_chunk_match(s) || chunk_value(s) > u64::MAX {
                    unchanged && out is None
                } else if chunk_value(s) * 1442 > f.len() {
                    // a stale or out-of-range request: ignored, no frame, no error
                    unchanged && out is None
                } else if chunk_value(s) >= 0x0100_0000 {
                    final(self).state == TransferState::Failed(
                        TransferFailure::EncodingLimitExceeded,
                    ) && out is None && final(self).progress == old(self).progress
                } else {
                    &&& final(self).state == TransferState::Transferring
                    &&& (out matches Some(fr) && fr@ == frame_bytes(
                        chunk_value(s) as u64,
                        chunk_payload(f, chunk_value(s)),
                    ))
                    &&& final(self).progress == chunk_value(s) * 1442 + chunk_payload(
                        f,
                        chunk_value(s),
                    ).len()
                }
            }),
    {
        let r = parse_chunk_number(body);
        match r {
            ChunkParseResult::FileTransferCompleted => {
                self.state = TransferState::Completed;
                None
            },
            ChunkParseResult::FileTransferError => {
                self.state = TransferState::Failed(TransferFailure::DeviceReported);
                None
            },
            ChunkParseResult::Error(_) => None,
            ChunkParseResult::Chunk(n) => {
                proof {
                    crate::chunk::lemma_chunk_value_nonneg(body@);
                }
                let len = self.file.len();
                match n.checked_mul(1442) {
                    None => {
                        // the offset overflows 64 bits, so it lies past any file
                        None
                    },
                    Some(off64) => {
                        if off64 > len as u64 {
                            return None;
                        }
                        if n >= 0x0100_0000 {
                            self.state = TransferState::Failed(
                                TransferFailure::EncodingLimitExceeded,
                            );
                            return None;
                        }
                        let off = off64 as usize;
                        let count = if len - off < CHUNK_SIZE {
                            len - off
                        } else {
                            CHUNK_SIZE
                        };
                        let payload = slice_subrange(self.file.as_slice(), off, off + count);
                        match encode_frame(n, payload) {
                            Ok(fr) => {
                                self.progress = off64 + count as u64;
                                Some(fr)
                            },
                            Err(_) => {
                                // unreachable: the index and the length were
                                // both checked against the wire limits
                                proof {
                                    assert(false);
                                }
                                None
                            },
                        }
                    },
                }
            },
        }
    }
}

} // verus!
