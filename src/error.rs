use vstd::prelude::*;

verus! {

/// Failures reported by the channel layer.
#[derive(PartialEq, Eq, Structural, Debug, Clone, Copy)]
pub enum L2capError {
    /// The packet pool had no buffer to give, or a count reached its limit.
    OutOfMemory,
    /// A non-suspending send found too few transmit credits.
    Busy,
    /// The channel is closing or closed.
    Disconnected,
    /// The handle does not name a live channel of this manager.
    InvalidChannel,
    /// Every slot of the table is in use.
    NoFreeChannel,
    /// The peer refused the connection request.
    PeerRejected,
    /// The peer did not answer the connection request in time.
    Timeout,
    /// The peer broke the framing or credit rules; the channel is being torn down.
    ProtocolViolation,
    /// The payload is larger than the channel's MTU.
    SizeViolation,
    /// The caller's buffer cannot hold the next SDU, which stays queued.
    BufferTooSmall,
}

} // verus!
