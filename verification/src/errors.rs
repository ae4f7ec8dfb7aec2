//! Error taxonomy of the driver: handshake failures surfaced to the caller,
//! and malformed keyboard input discarded by the frame decoder.

use vstd::prelude::*;

verus! {

/// Every failure the driver can surface. Handshake errors come from the
/// serial link to the host; the keyboard errors mark frames that the decoder
/// rejects. None of them aborts the scan loop.
#[derive(Clone, Copy, Debug, PartialEq, Eq, Structural)]
pub enum A2PiError {
    HandshakeFailureRTSAcquire,
    HandshakeFailureWrite,
    HandshakeFailureRTSClear,
    InvalidKBPayload,
    InvalidKBInput,
    InvalidKBModifier,
}

} // verus!
