//! The channel slot table and the manager that drives each channel's state machine.
use vstd::prelude::*;

use crate::error::L2capError;
use crate::sar::{
    Assembly, Fed, Reassembler, append_bytes, delivered, feed, feed_all, frame_views,
    lemma_feed_all_push, lemma_round_trip_prefix, segment, segments,
};

verus! {

/// Header bytes that a pool buffer keeps free below the default MTU.
pub const MTU_RESERVE: u16 = 6;

/// Header bytes that a pool buffer keeps free below the default MPS.
pub const MPS_RESERVE: u16 = 4;

/// Credits granted in each direction when the configuration names none.
pub const DEFAULT_INITIAL_CREDITS: u16 = 8;

/// Receive credits at or below which automatic flow control tops the peer up.
pub const DEFAULT_LOW_WATER: u16 = 2;

/// First dynamically allocated channel identifier on an LE link.
pub const FIRST_DYNAMIC_CID: u16 = 0x40;

/// Largest number of slots a table may hold: one per dynamic channel identifier.
pub const MAX_CHANNELS: usize = 64;

/// Lifecycle of one slot.
#[derive(PartialEq, Eq, Structural, Debug, Clone, Copy)]
pub enum ChannelState {
    Free,
    Connecting,
    Connected,
    Disconnecting,
}

/// Who gives receive credits back to the peer.
#[derive(PartialEq, Eq, Structural, Debug, Clone, Copy)]
pub enum CreditFlowPolicy {
    /// The manager tops the peer's credits back up to the initial amount once
    /// the receive credits left fall to `low_water` or below.
    Automatic { low_water: u16 },
    /// The application grants credits itself.
    Explicit,
}

impl Default for CreditFlowPolicy {
    fn default() -> (r: Self)
        ensures
            r == (CreditFlowPolicy::Automatic { low_water: DEFAULT_LOW_WATER }),
    {
        CreditFlowPolicy::Automatic { low_water: DEFAULT_LOW_WATER }
    }
}

/// Configuration for an L2CAP channel.
#[derive(Debug, Clone, Copy)]
pub struct L2capChannelConfig {
    /// Size of Service Data Unit. Defaults to the pool buffer size less `MTU_RESERVE`.
    pub mtu: Option<u16>,
    /// Frame size (1 frame == 1 credit). Defaults to the pool buffer size less `MPS_RESERVE`.
    pub mps: Option<u16>,
    /// Flow control policy for connection oriented channels.
    pub flow_policy: CreditFlowPolicy,
    /// Initial credits for connection oriented channels.
    pub initial_credits: Option<u16>,
}

impl Default for L2capChannelConfig {
    fn default() -> (r: Self)
        ensures
            r.mtu is None,
            r.mps is None,
            r.initial_credits is None,
            r.flow_policy == (CreditFlowPolicy::Automatic { low_water: DEFAULT_LOW_WATER }),
    {
        L2capChannelConfig {
            mtu: None,
            mps: None,
            flow_policy: CreditFlowPolicy::Automatic { low_water: DEFAULT_LOW_WATER },
            initial_credits: None,
        }
    }
}

/// Traffic counters of one channel.
#[derive(PartialEq, Eq, Structural, Debug, Clone, Copy)]
pub struct ChannelMetrics {
    pub frames_sent: u64,
    /// Bytes put on the link, length headers included.
    pub bytes_sent: u64,
    pub frames_received: u64,
    pub sdus_received: u64,
}

/// Names one connected lifetime of one slot: the slot's position and the
/// generation it had when the channel was opened.
#[derive(PartialEq, Eq, Structural, Debug, Clone, Copy)]
pub struct ChannelIndex {
    pub slot: usize,
    pub generation: u32,
}

/// One entry of the slot table.
pub struct ChannelSlot {
    pub state: ChannelState,
    /// Bumped each time the slot is opened, so that stale indices are refused.
    pub generation: u32,
    pub conn: u16,
    pub psm: u16,
    pub local_cid: u16,
    pub remote_cid: u16,
    pub mtu: u16,
    pub mps: u16,
    pub flow_policy: CreditFlowPolicy,
    pub initial_credits: u16,
    pub tx_credits: u16,
    pub rx_credits: u16,
    pub reassembly: Reassembler,
    /// Complete SDUs not yet taken by a receiver, oldest first.
    pub inbox: Vec<Vec<u8>>,
    pub ref_count: u32,
    pub metrics: ChannelMetrics,
}

/// A slot that `create` or `accept` may take.
pub open spec fn eligible(s: ChannelSlot) -> bool {
    s.state == ChannelState::Free && s.ref_count == 0
}

/// `ch` names the channel that currently occupies its slot.
pub open spec fn live(m: Seq<ChannelSlot>, ch: ChannelIndex) -> bool {
    &&& ch.slot < m.len()
    &&& m[ch.slot as int].generation == ch.generation
    &&& m[ch.slot as int].state != ChannelState::Free
}

/// `m2` is `m1` but for slot `i`.
pub open spec fn others_kept(m1: Seq<ChannelSlot>, m2: Seq<ChannelSlot>, i: int) -> bool {
    &&& m1.len() == m2.len()
    &&& forall|j: int| 0 <= j < m1.len() && j != i ==> #[trigger] m2[j] == m1[j]
}

/// The slot holds nothing: no SDU in progress and none waiting.
pub open spec fn emptied(s: ChannelSlot) -> bool {
    &&& s.reassembly@ == Assembly::Idle
    &&& s.inbox@.len() == 0
}

/// What `dec_ref` does to the table: one reference fewer on a live channel,
/// and a slot whose last reference goes is freed.
pub open spec fn released(m1: Seq<ChannelSlot>, m2: Seq<ChannelSlot>, ch: ChannelIndex) -> bool {
    let i = ch.slot as int;
    if live(m1, ch) && m1[i].ref_count > 0 {
        &&& others_kept(m1, m2, i)
        &&& m2[i].ref_count == m1[i].ref_count - 1
        &&& m2[i].generation == m1[i].generation
        &&& if m1[i].ref_count == 1 {
            m2[i].state == ChannelState::Free && emptied(m2[i])
        } else {
            m2[i] == (ChannelSlot { ref_count: (m1[i].ref_count - 1) as u32, ..m1[i] })
        }
    } else {
        m2 == m1
    }
}

/// Releasing `ch` gives up the last reference of a channel that is still open,
/// so the peer must still be told that it closes.
pub open spec fn release_leaves_peer_open(m1: Seq<ChannelSlot>, ch: ChannelIndex) -> bool {
    &&& live(m1, ch)
    &&& m1[ch.slot as int].ref_count == 1
    &&& (m1[ch.slot as int].state == ChannelState::Connected || m1[ch.slot as int].state
        == ChannelState::Connecting)
}

/// Slot `i` is the first one that `create` or `accept` may take.
pub open spec fn first_eligible(m: Seq<ChannelSlot>, i: int) -> bool {
    &&& 0 <= i < m.len()
    &&& eligible(m[i])
    &&& forall|j: int| 0 <= j < i ==> !eligible(#[trigger] m[j])
}

/// The generation that a slot takes when it is opened again.
pub open spec fn next_generation(g: u32) -> u32 {
    if g == u32::MAX {
        0
    } else {
        (g + 1) as u32
    }
}

/// The MTU that `cfg` asks for over a pool of `pool`-byte buffers.
pub open spec fn cfg_mtu(cfg: L2capChannelConfig, pool: nat) -> u16 {
    match cfg.mtu {
        Some(m) => m,
        None => (pool - MTU_RESERVE) as u16,
    }
}

/// The MPS that `cfg` asks for over a pool of `pool`-byte buffers.
pub open spec fn cfg_mps(cfg: L2capChannelConfig, pool: nat) -> u16 {
    match cfg.mps {
        Some(m) => m,
        None => (pool - MPS_RESERVE) as u16,
    }
}

/// The credits that `cfg` grants the peer at the start.
pub open spec fn cfg_credits(cfg: L2capChannelConfig) -> u16 {
    match cfg.initial_credits {
        Some(c) => c,
        None => DEFAULT_INITIAL_CREDITS,
    }
}

/// The smaller of two sizes.
pub open spec fn min16(a: u16, b: u16) -> u16 {
    if a <= b {
        a
    } else {
        b
    }
}

/// `a + b`, held at the largest `u64`.
pub open spec fn sat_sum(a: u64, b: nat) -> u64 {
    if a + b > u64::MAX {
        u64::MAX
    } else {
        (a + b) as u64
    }
}

/// Counters of a channel that has carried nothing yet.
pub open spec fn zero_metrics() -> ChannelMetrics {
    ChannelMetrics { frames_sent: 0, bytes_sent: 0, frames_received: 0, sdus_received: 0 }
}

/// `s2` is `s1` opened for a new channel on link `conn` and service `psm`,
/// with the local side of `cfg` and one reference.
pub open spec fn opened(
    s1: ChannelSlot,
    s2: ChannelSlot,
    conn: u16,
    psm: u16,
    cfg: L2capChannelConfig,
    pool: nat,
) -> bool {
    &&& s2.generation == next_generation(s1.generation)
    &&& s2.conn == conn
    &&& s2.psm == psm
    &&& s2.local_cid == s1.local_cid
    &&& s2.flow_policy == cfg.flow_policy
    &&& s2.initial_credits == cfg_credits(cfg)
    &&& s2.rx_credits == cfg_credits(cfg)
    &&& s2.ref_count == 1
    &&& s2.metrics == zero_metrics()
    &&& emptied(s2)
}

/// A connection request of the peer.
#[derive(PartialEq, Eq, Structural, Debug, Clone, Copy)]
pub struct PeerRequest {
    pub psm: u16,
    pub remote_cid: u16,
    pub mtu: u16,
    pub mps: u16,
    pub credits: u16,
}

/// The peer's answer to a connection request, or its absence.
#[derive(PartialEq, Eq, Structural, Debug, Clone, Copy)]
pub enum ConnectResponse {
    Accepted { remote_cid: u16, mtu: u16, mps: u16, credits: u16 },
    Rejected,
    TimedOut,
}

/// An SDU cut into frames, and how many of them went out.
pub struct OutgoingSdu {
    pub frames: Vec<Vec<u8>>,
    pub next: usize,
}

/// What a suspending send does next.
#[derive(Debug)]
pub enum SendStep {
    /// Put this frame on the link; its credit is spent.
    Transmit(Vec<u8>),
    /// Wait until the peer grants transmit credits.
    NeedCredits,
    /// Every frame went out.
    Complete,
}

/// A receive on the slot waits: the channel is open and nothing is ready.
pub open spec fn receive_waits(s: ChannelSlot) -> bool {
    s.inbox@.len() == 0 && s.state == ChannelState::Connected
}

/// What `create` does: the first free slot opened in `Connecting`, or `NoFreeChannel` with nothing changed.
pub open spec fn created(m1: Seq<ChannelSlot>, m2: Seq<ChannelSlot>, pool: nat, conn: u16, psm: u16, cfg: L2capChannelConfig, r: Result<ChannelIndex, L2capError>) -> bool {
    &&& (r is Err <==> forall|j: int|
            0 <= j < m1.len() ==> !eligible(#[trigger] m1[j]))
    &&& (r is Err ==> r == Err::<ChannelIndex, L2capError>(L2capError::NoFreeChannel)
            && m2 == m1)
    &&& (r matches Ok(ch) ==> {
            &&& first_eligible(m1, ch.slot as int)
            &&& others_kept(m1, m2, ch.slot as int)
            &&& opened(m1[ch.slot as int], m2[ch.slot as int], conn, psm, cfg, pool)
            &&& live(m2, ch)
            &&& m2[ch.slot as int].state == ChannelState::Connecting
            &&& m2[ch.slot as int].mtu == cfg_mtu(cfg, pool)
            &&& m2[ch.slot as int].mps == cfg_mps(cfg, pool)
            &&& m2[ch.slot as int].tx_credits == 0
        })
}

/// What `accept` does with a peer request.
pub open spec fn accepted(m1: Seq<ChannelSlot>, m2: Seq<ChannelSlot>, pool: nat, conn: u16, psms: Seq<u16>, req: PeerRequest, cfg: L2capChannelConfig, r: Result<Option<ChannelIndex>, L2capError>) -> bool {
    &&& (!psms.contains(req.psm) ==> r == Ok::<Option<ChannelIndex>, L2capError>(None)
            && m2 == m1)
    &&& (psms.contains(req.psm) && (forall|j: int|
            0 <= j < m1.len() ==> !eligible(#[trigger] m1[j])) ==> r == Err::<
            Option<ChannelIndex>,
            L2capError,
        >(L2capError::NoFreeChannel) && m2 == m1)
    &&& (psms.contains(req.psm) && min16(cfg_mps(cfg, pool), req.mps) < 2
            ==> r is Err && m2 == m1)
    &&& (psms.contains(req.psm) && (exists|j: int|
            0 <= j < m1.len() && eligible(#[trigger] m1[j])) && min16(cfg_mps(cfg, pool), req.mps) < 2
            ==> r == Err::<Option<ChannelIndex>, L2capError>(L2capError::ProtocolViolation))
    &&& (r is Ok ==> (r == Ok::<Option<ChannelIndex>, L2capError>(None) <==> !psms.contains(
            req.psm,
        )))
    &&& (r matches Ok(Some(ch)) ==> {
            &&& first_eligible(m1, ch.slot as int)
            &&& others_kept(m1, m2, ch.slot as int)
            &&& opened(m1[ch.slot as int], m2[ch.slot as int], conn, req.psm, cfg, pool)
            &&& live(m2, ch)
            &&& m2[ch.slot as int].state == ChannelState::Connected
            &&& m2[ch.slot as int].remote_cid == req.remote_cid
            &&& m2[ch.slot as int].mtu == min16(cfg_mtu(cfg, pool), req.mtu)
            &&& m2[ch.slot as int].mps == min16(cfg_mps(cfg, pool), req.mps)
            &&& m2[ch.slot as int].tx_credits == req.credits
        })
    &&& (psms.contains(req.psm) && (exists|j: int|
            0 <= j < m1.len() && eligible(#[trigger] m1[j])) && min16(cfg_mps(cfg, pool), req.mps) >= 2 ==> r is Ok)
}

/// What `try_send` does: all frames of the payload with their credits spent, or an error and nothing changed.
pub open spec fn try_sent(m1: Seq<ChannelSlot>, m2: Seq<ChannelSlot>, ch: ChannelIndex, payload: Seq<u8>, r: Result<Vec<Vec<u8>>, L2capError>) -> bool {
    &&& (r is Err ==> m2 == m1)
    &&& (!live(m1, ch) ==> r == Err::<Vec<Vec<u8>>, L2capError>(
            L2capError::InvalidChannel,
        ))
    &&& (live(m1, ch) && m1[ch.slot as int].state != ChannelState::Connected
            ==> r == Err::<Vec<Vec<u8>>, L2capError>(L2capError::Disconnected))
    &&& (live(m1, ch) && m1[ch.slot as int].state == ChannelState::Connected
            ==> {
            let s = m1[ch.slot as int];
            if payload.len() > s.mtu {
                r == Err::<Vec<Vec<u8>>, L2capError>(L2capError::SizeViolation)
            } else if segments(payload, s.mps as nat).len() > s.tx_credits {
                r == Err::<Vec<Vec<u8>>, L2capError>(L2capError::Busy)
            } else {
                r matches Ok(frames) && frame_views(frames@) == segments(payload, s.mps as nat)
                    && others_kept(m1, m2, ch.slot as int)
                    && m2[ch.slot as int] == (ChannelSlot {
                    tx_credits: (s.tx_credits - frames@.len()) as u16,
                    metrics: ChannelMetrics {
                        frames_sent: sat_sum(s.metrics.frames_sent, frames@.len()),
                        bytes_sent: sat_sum(s.metrics.bytes_sent, payload.len() + 2),
                        ..s.metrics
                    },
                    ..s
                })
            }
        })
}

/// What `begin_send` gives for `payload`.
pub open spec fn send_begun(m1: Seq<ChannelSlot>, ch: ChannelIndex, payload: Seq<u8>, r: Result<OutgoingSdu, L2capError>) -> bool {
    &&& (!live(m1, ch) ==> r is Err && r->Err_0 == L2capError::InvalidChannel)
    &&& (live(m1, ch) && m1[ch.slot as int].state != ChannelState::Connected ==> r is Err
            && r->Err_0 == L2capError::Disconnected)
    &&& (live(m1, ch) && m1[ch.slot as int].state == ChannelState::Connected ==> if payload.len()
            > m1[ch.slot as int].mtu {
            r is Err && r->Err_0 == L2capError::SizeViolation
        } else {
            r matches Ok(out) && out.next == 0 && frame_views(out.frames@) == segments(
                payload,
                m1[ch.slot as int].mps as nat,
            )
        })
}

/// What one step of a waiting send does.
pub open spec fn send_stepped(m1: Seq<ChannelSlot>, m2: Seq<ChannelSlot>, ch: ChannelIndex, out1: OutgoingSdu, out2: OutgoingSdu, r: Result<SendStep, L2capError>) -> bool {
    &&& out2.frames == out1.frames
    &&& (!live(m1, ch) ==> r is Err && r->Err_0 == L2capError::InvalidChannel)
    &&& (live(m1, ch) && m1[ch.slot as int].state != ChannelState::Connected
            ==> r is Err && r->Err_0 == L2capError::Disconnected)
    &&& (r is Err ==> m2 == m1 && out2.next == out1.next)
    &&& (live(m1, ch) && m1[ch.slot as int].state == ChannelState::Connected
            ==> {
            let s = m1[ch.slot as int];
            if out1.next == out1.frames@.len() {
                r matches Ok(SendStep::Complete) && m2 == m1 && out2.next
                    == out1.next
            } else if s.tx_credits == 0 {
                r matches Ok(SendStep::NeedCredits) && m2 == m1
                    && out2.next == out1.next
            } else {
                r matches Ok(SendStep::Transmit(f)) && f@ == out1.frames@[out1.next as int]@ && out2.next == out1.next + 1 && others_kept(
                    m1,
                    m2,
                    ch.slot as int,
                ) && m2[ch.slot as int] == (ChannelSlot {
                    tx_credits: (s.tx_credits - 1) as u16,
                    metrics: ChannelMetrics {
                        frames_sent: sat_sum(s.metrics.frames_sent, 1),
                        bytes_sent: sat_sum(s.metrics.bytes_sent, f@.len()),
                        ..s.metrics
                    },
                    ..s
                })
            }
        })
}

/// What `poll_receive` does: the oldest SDU taken, a wait, or an error.
pub open spec fn polled(m1: Seq<ChannelSlot>, m2: Seq<ChannelSlot>, ch: ChannelIndex, r: Result<Option<Vec<u8>>, L2capError>) -> bool {
    &&& (!live(m1, ch) ==> r == Err::<Option<Vec<u8>>, L2capError>(
            L2capError::InvalidChannel,
        ) && m2 == m1)
    &&& (live(m1, ch) ==> {
            let s1 = m1[ch.slot as int];
            if s1.state == ChannelState::Connecting {
                r == Err::<Option<Vec<u8>>, L2capError>(L2capError::Disconnected) && m2 == m1
            } else if s1.inbox@.len() > 0 {
                &&& r matches Ok(Some(sdu)) && sdu@ == s1.inbox@[0]@
                &&& others_kept(m1, m2, ch.slot as int)
                &&& m2[ch.slot as int] == (ChannelSlot {
                    inbox: m2[ch.slot as int].inbox,
                    ..s1
                })
                &&& m2[ch.slot as int].inbox@ == s1.inbox@.remove(0)
            } else if receive_waits(s1) {
                r == Ok::<Option<Vec<u8>>, L2capError>(None) && m2 == m1
            } else {
                r == Err::<Option<Vec<u8>>, L2capError>(L2capError::Disconnected)
                    && m2 == m1
            }
        })
}

/// What `receive` does with the caller's buffer, `buf1` before and `buf2` after.
pub open spec fn received(
    m1: Seq<ChannelSlot>,
    m2: Seq<ChannelSlot>,
    ch: ChannelIndex,
    buf1: Seq<u8>,
    buf2: Seq<u8>,
    r: Result<Option<usize>, L2capError>,
) -> bool {
    &&& (!live(m1, ch) ==> r == Err::<Option<usize>, L2capError>(L2capError::InvalidChannel)
        && m2 == m1 && buf2 == buf1)
    &&& (live(m1, ch) ==> {
        let s1 = m1[ch.slot as int];
        if s1.state == ChannelState::Connecting {
            r == Err::<Option<usize>, L2capError>(L2capError::Disconnected) && m2 == m1 && buf2
                == buf1
        } else if s1.inbox@.len() > 0 {
            let sdu = s1.inbox@[0]@;
            if sdu.len() > buf1.len() {
                r == Err::<Option<usize>, L2capError>(L2capError::BufferTooSmall) && m2 == m1
                    && buf2 == buf1
            } else {
                &&& r == Ok::<Option<usize>, L2capError>(Some(sdu.len() as usize))
                &&& buf2.len() == buf1.len()
                &&& buf2.take(sdu.len() as int) == sdu
                &&& buf2.skip(sdu.len() as int) == buf1.skip(sdu.len() as int)
                &&& others_kept(m1, m2, ch.slot as int)
                &&& m2[ch.slot as int] == (ChannelSlot { inbox: m2[ch.slot as int].inbox, ..s1 })
                &&& m2[ch.slot as int].inbox@ == s1.inbox@.remove(0)
            }
        } else if receive_waits(s1) {
            r == Ok::<Option<usize>, L2capError>(None) && m2 == m1 && buf2 == buf1
        } else {
            r == Err::<Option<usize>, L2capError>(L2capError::Disconnected) && m2 == m1 && buf2
                == buf1
        }
    })
}

/// What `disconnect` does: a live channel moves to `Disconnecting`.
pub open spec fn disconnected(m1: Seq<ChannelSlot>, m2: Seq<ChannelSlot>, ch: ChannelIndex, r: Result<(), L2capError>) -> bool {
    &&& (!live(m1, ch) ==> r == Err::<(), L2capError>(L2capError::InvalidChannel)
            && m2 == m1)
    &&& (live(m1, ch) ==> r is Ok && others_kept(m1, m2, ch.slot as int)
            && m2[ch.slot as int] == (ChannelSlot {
            state: ChannelState::Disconnecting,
            ..m1[ch.slot as int]
        }))
}

/// What `inc_ref` does: one more reference on a live channel.
pub open spec fn acquired(m1: Seq<ChannelSlot>, m2: Seq<ChannelSlot>, ch: ChannelIndex, r: Result<(), L2capError>) -> bool {
    &&& (!live(m1, ch) ==> r == Err::<(), L2capError>(L2capError::InvalidChannel)
            && m2 == m1)
    &&& (live(m1, ch) && m1[ch.slot as int].ref_count == u32::MAX ==> r == Err::<
            (),
            L2capError,
        >(L2capError::OutOfMemory) && m2 == m1)
    &&& (live(m1, ch) && m1[ch.slot as int].ref_count < u32::MAX ==> r is Ok
            && others_kept(m1, m2, ch.slot as int) && m2[ch.slot as int]
            == (ChannelSlot {
            ref_count: (m1[ch.slot as int].ref_count + 1) as u32,
            ..m1[ch.slot as int]
        }))
}

/// The slot table of one host, with every channel's state.
pub struct ChannelManager {
    slots: Vec<ChannelSlot>,
    pool_buffer_size: u16,
}

impl View for ChannelManager {
    type V = Seq<ChannelSlot>;

    closed spec fn view(&self) -> Seq<ChannelSlot> {
        self.slots@
    }
}

impl ChannelManager {
    /// Every slot's reassembly is well formed and a connected slot can carry frames.
    pub closed spec fn wf(&self) -> bool {
        &&& self.slots@.len() <= MAX_CHANNELS
        &&& self.pool_buffer_size >= MTU_RESERVE
        &&& forall|i: int| 0 <= i < self.slots@.len() ==> #[trigger] self.slots@[i].reassembly.wf()
        &&& forall|i: int|
            0 <= i < self.slots@.len() ==> #[trigger] self.slots@[i].state != ChannelState::Connected
                || self.slots@[i].mps >= 2
    }

    /// The pool buffer size that default MTU and MPS derive from.
    pub closed spec fn buffer_size(&self) -> nat {
        self.pool_buffer_size as nat
    }

    /// A table of `capacity` free slots, for a packet pool whose buffers hold
    /// `pool_buffer_size` bytes.
    pub fn new(capacity: usize, pool_buffer_size: u16) -> (r: Self)
        requires
            capacity <= MAX_CHANNELS,
            pool_buffer_size >= MTU_RESERVE,
        ensures
            r.wf(),
            r.buffer_size() == pool_buffer_size,
            r@.len() == capacity,
            forall|i: int|
                0 <= i < capacity ==> #[trigger] r@[i].state == ChannelState::Free
                    && r@[i].ref_count == 0,
    {
        let mut slots: Vec<ChannelSlot> = Vec::new();
        let mut i: usize = 0;
        while i < capacity
            invariant
                i <= capacity,
                capacity <= MAX_CHANNELS,
                slots@.len() == i,
                forall|j: int|
                    0 <= j < i ==> #[trigger] slots@[j].state == ChannelState::Free
                        && slots@[j].ref_count == 0 && slots@[j].reassembly.wf(),
            decreases capacity - i,
        {
            slots.push(
                ChannelSlot {
                    state: ChannelState::Free,
                    generation: 0,
                    conn: 0,
                    psm: 0,
                    local_cid: FIRST_DYNAMIC_CID + i as u16,
                    remote_cid: 0,
                    mtu: 0,
                    mps: 0,
                    flow_policy: CreditFlowPolicy::Explicit,
                    initial_credits: 0,
                    tx_credits: 0,
                    rx_credits: 0,
                    reassembly: Reassembler::new(),
                    inbox: Vec::new(),
                    ref_count: 0,
                    metrics: ChannelMetrics {
                        frames_sent: 0,
                        bytes_sent: 0,
                        frames_received: 0,
                        sdus_received: 0,
                    },
                },
            );
            i = i + 1;
        }
        let r = ChannelManager { slots, pool_buffer_size };
        assert forall|j: int| 0 <= j < r.slots@.len() implies #[trigger] r.slots@[j].reassembly.wf() by {
            assert(r.slots@[j].state == ChannelState::Free);
        }
        r
    }

    /// Number of slots in the table.
    pub fn capacity(&self) -> (r: usize)
        ensures
            r == self@.len(),
    {
        self.slots.len()
    }

    /// The first slot that is free and unreferenced, if any.
    pub fn allocate_free_slot(&self) -> (r: Option<usize>)
        ensures
            r matches Some(i) ==> i < self@.len() && eligible(self@[i as int]) && forall|j: int|
                0 <= j < i ==> !eligible(#[trigger] self@[j]),
            r is None ==> forall|j: int| 0 <= j < self@.len() ==> !eligible(#[trigger] self@[j]),
    {
        let mut i: usize = 0;
        while i < self.slots.len()
            invariant
                i <= self@.len(),
                self@ == self.slots@,
                forall|j: int| 0 <= j < i ==> !eligible(#[trigger] self@[j]),
            decreases self@.len() - i,
        {
            if self.slots[i].state == ChannelState::Free && self.slots[i].ref_count == 0 {
                return Some(i);
            }
            i = i + 1;
        }
        None
    }

    /// Whether `ch` names the channel that occupies its slot now.
    pub fn is_live(&self, ch: ChannelIndex) -> (r: bool)
        ensures
            r == live(self@, ch),
    {
        ch.slot < self.slots.len() && self.slots[ch.slot].generation == ch.generation
            && self.slots[ch.slot].state != ChannelState::Free
    }

    /// State of the channel `ch`, or `InvalidChannel` when it is stale.
    pub fn state(&self, ch: ChannelIndex) -> (r: Result<ChannelState, L2capError>)
        ensures
            live(self@, ch) ==> r == Ok::<ChannelState, L2capError>(self@[ch.slot as int].state),
            !live(self@, ch) ==> r == Err::<ChannelState, L2capError>(L2capError::InvalidChannel),
    {
        if !self.is_live(ch) {
            return Err(L2capError::InvalidChannel);
        }
        Ok(self.slots[ch.slot].state)
    }

    /// Protocol/service multiplexer of the channel `ch`.
    pub fn psm(&self, ch: ChannelIndex) -> (r: Result<u16, L2capError>)
        ensures
            live(self@, ch) ==> r == Ok::<u16, L2capError>(self@[ch.slot as int].psm),
            !live(self@, ch) ==> r == Err::<u16, L2capError>(L2capError::InvalidChannel),
    {
        if !self.is_live(ch) {
            return Err(L2capError::InvalidChannel);
        }
        Ok(self.slots[ch.slot].psm)
    }

    /// Transmit and receive credits of the channel `ch`, in that order.
    pub fn credits(&self, ch: ChannelIndex) -> (r: Result<(u16, u16), L2capError>)
        ensures
            live(self@, ch) ==> r == Ok::<(u16, u16), L2capError>(
                (self@[ch.slot as int].tx_credits, self@[ch.slot as int].rx_credits),
            ),
            !live(self@, ch) ==> r == Err::<(u16, u16), L2capError>(L2capError::InvalidChannel),
    {
        if !self.is_live(ch) {
            return Err(L2capError::InvalidChannel);
        }
        Ok((self.slots[ch.slot].tx_credits, self.slots[ch.slot].rx_credits))
    }

    /// Our identifier of the channel `ch`.
    pub fn local_cid(&self, ch: ChannelIndex) -> (r: Result<u16, L2capError>)
        ensures
            live(self@, ch) ==> r == Ok::<u16, L2capError>(self@[ch.slot as int].local_cid),
            !live(self@, ch) ==> r == Err::<u16, L2capError>(L2capError::InvalidChannel),
    {
        if !self.is_live(ch) {
            return Err(L2capError::InvalidChannel);
        }
        Ok(self.slots[ch.slot].local_cid)
    }

    /// The peer's identifier of the channel `ch`.
    pub fn remote_cid(&self, ch: ChannelIndex) -> (r: Result<u16, L2capError>)
        ensures
            live(self@, ch) ==> r == Ok::<u16, L2capError>(self@[ch.slot as int].remote_cid),
            !live(self@, ch) ==> r == Err::<u16, L2capError>(L2capError::InvalidChannel),
    {
        if !self.is_live(ch) {
            return Err(L2capError::InvalidChannel);
        }
        Ok(self.slots[ch.slot].remote_cid)
    }

    /// MTU and MPS of the channel `ch`, in that order.
    pub fn sizes(&self, ch: ChannelIndex) -> (r: Result<(u16, u16), L2capError>)
        ensures
            live(self@, ch) ==> r == Ok::<(u16, u16), L2capError>(
                (self@[ch.slot as int].mtu, self@[ch.slot as int].mps),
            ),
            !live(self@, ch) ==> r == Err::<(u16, u16), L2capError>(L2capError::InvalidChannel),
    {
        if !self.is_live(ch) {
            return Err(L2capError::InvalidChannel);
        }
        Ok((self.slots[ch.slot].mtu, self.slots[ch.slot].mps))
    }

    /// Traffic counters of the channel `ch`.
    pub fn metrics(&self, ch: ChannelIndex) -> (r: Result<ChannelMetrics, L2capError>)
        ensures
            live(self@, ch) ==> r == Ok::<ChannelMetrics, L2capError>(
                self@[ch.slot as int].metrics,
            ),
            !live(self@, ch) ==> r == Err::<ChannelMetrics, L2capError>(
                L2capError::InvalidChannel,
            ),
    {
        if !self.is_live(ch) {
            return Err(L2capError::InvalidChannel);
        }
        Ok(self.slots[ch.slot].metrics)
    }

    /// Counts one more handle on the channel `ch`. Fails with `InvalidChannel`
    /// on a stale index and with `OutOfMemory` when the count is at its limit.
    pub fn inc_ref(&mut self, ch: ChannelIndex) -> (r: Result<(), L2capError>)
        requires
            old(self).wf(),
        ensures
            final(self).wf(),
            final(self).buffer_size() == old(self).buffer_size(),
            acquired(old(self)@, final(self)@, ch, r),
    {
        if !self.is_live(ch) {
            return Err(L2capError::InvalidChannel);
        }
        if self.slots[ch.slot].ref_count == u32::MAX {
            return Err(L2capError::OutOfMemory);
        }
        self.slots[ch.slot].ref_count = self.slots[ch.slot].ref_count + 1;
        Ok(())
    }

    /// Frees slot `i`: no state, no references, no data left.
    fn free_slot(&mut self, i: usize)
        requires
            old(self).wf(),
            i < old(self)@.len(),
        ensures
            final(self).wf(),
            final(self).buffer_size() == old(self).buffer_size(),
            others_kept(old(self)@, final(self)@, i as int),
            final(self)@[i as int].state == ChannelState::Free,
            final(self)@[i as int].ref_count == 0,
            final(self)@[i as int].generation == old(self)@[i as int].generation,
            emptied(final(self)@[i as int]),
    {
        self.slots[i].state = ChannelState::Free;
        self.slots[i].ref_count = 0;
        self.slots[i].reassembly.reset();
        self.slots[i].inbox = Vec::new();
    }

    /// Counts one handle fewer on the channel `ch`. When the last one goes the
    /// slot is freed whatever its state: with no handle left nothing can
    /// observe the channel closing, so an open channel passes through
    /// `Disconnecting` and on to `Free` in this one step. The result then tells
    /// whether the channel was still open, so that the peer must still be told.
    pub fn dec_ref(&mut self, ch: ChannelIndex) -> (r: bool)
        requires
            old(self).wf(),
        ensures
            final(self).wf(),
            final(self).buffer_size() == old(self).buffer_size(),
            released(old(self)@, final(self)@, ch),
            r == release_leaves_peer_open(old(self)@, ch),
    {
        if !self.is_live(ch) || self.slots[ch.slot].ref_count == 0 {
            return false;
        }
        let i = ch.slot;
        if self.slots[i].ref_count == 1 {
            let st = self.slots[i].state;
            self.free_slot(i);
            st == ChannelState::Connected || st == ChannelState::Connecting
        } else {
            self.slots[i].ref_count = self.slots[i].ref_count - 1;
            false
        }
    }

    /// Starts closing the channel `ch`: an open channel moves to
    /// `Disconnecting`; a closing one is left as it is.
    pub fn disconnect(&mut self, ch: ChannelIndex) -> (r: Result<(), L2capError>)
        requires
            old(self).wf(),
        ensures
            final(self).wf(),
            final(self).buffer_size() == old(self).buffer_size(),
            disconnected(old(self)@, final(self)@, ch, r),
    {
        if !self.is_live(ch) {
            return Err(L2capError::InvalidChannel);
        }
        self.slots[ch.slot].state = ChannelState::Disconnecting;
        Ok(())
    }
}

impl ChannelManager {
    /// Gives slot `i` to a new channel in `Connecting`, with the local side of `cfg`.
    fn open_slot(&mut self, i: usize, conn: u16, psm: u16, cfg: &L2capChannelConfig) -> (r:
        ChannelIndex)
        requires
            old(self).wf(),
            i < old(self)@.len(),
            eligible(old(self)@[i as int]),
        ensures
            final(self).wf(),
            final(self).buffer_size() == old(self).buffer_size(),
            others_kept(old(self)@, final(self)@, i as int),
            opened(old(self)@[i as int], final(self)@[i as int], conn, psm, *cfg, old(self).buffer_size()),
            final(self)@[i as int].state == ChannelState::Connecting,
            final(self)@[i as int].mtu == cfg_mtu(*cfg, old(self).buffer_size()),
            final(self)@[i as int].mps == cfg_mps(*cfg, old(self).buffer_size()),
            final(self)@[i as int].tx_credits == 0,
            final(self)@[i as int].remote_cid == 0,
            r == (ChannelIndex { slot: i, generation: final(self)@[i as int].generation }),
    {
        let pool = self.pool_buffer_size;
        let g = self.slots[i].generation;
        let generation: u32 = if g == u32::MAX { 0 } else { g + 1 };
        let mtu: u16 = match cfg.mtu { Some(m) => m, None => pool - MTU_RESERVE };
        let mps: u16 = match cfg.mps { Some(m) => m, None => pool - MPS_RESERVE };
        let credits: u16 = match cfg.initial_credits { Some(c) => c, None => DEFAULT_INITIAL_CREDITS };
        self.slots[i].state = ChannelState::Connecting;
        self.slots[i].generation = generation;
        self.slots[i].conn = conn;
        self.slots[i].psm = psm;
        self.slots[i].remote_cid = 0;
        self.slots[i].mtu = mtu;
        self.slots[i].mps = mps;
        self.slots[i].flow_policy = cfg.flow_policy;
        self.slots[i].initial_credits = credits;
        self.slots[i].tx_credits = 0;
        self.slots[i].rx_credits = credits;
        self.slots[i].reassembly.reset();
        self.slots[i].inbox = Vec::new();
        self.slots[i].ref_count = 1;
        self.slots[i].metrics = ChannelMetrics {
            frames_sent: 0,
            bytes_sent: 0,
            frames_received: 0,
            sdus_received: 0,
        };
        ChannelIndex { slot: i, generation }
    }

    /// Takes a free slot for an outgoing connection request on link `conn` to
    /// service `psm`. The channel waits in `Connecting` for the peer's answer,
    /// which `on_connect_response` takes; the returned index holds one reference.
    pub fn create(&mut self, conn: u16, psm: u16, cfg: &L2capChannelConfig) -> (r: Result<
        ChannelIndex,
        L2capError,
    >)
        requires
            old(self).wf(),
        ensures
            final(self).wf(),
            final(self).buffer_size() == old(self).buffer_size(),
            created(old(self)@, final(self)@, old(self).buffer_size(), conn, psm, *cfg, r),
    {
        match self.allocate_free_slot() {
            None => Err(L2capError::NoFreeChannel),
            Some(i) => Ok(self.open_slot(i, conn, psm, cfg)),
        }
    }

    /// Takes the peer's answer to the request of the channel `ch`. On
    /// acceptance the channel is `Connected` with the smaller of each pair of
    /// sizes and the peer's credits to send with; on refusal, silence, or an
    /// MPS too small for the length header, the slot is freed.
    pub fn on_connect_response(&mut self, ch: ChannelIndex, resp: ConnectResponse) -> (r: Result<
        (),
        L2capError,
    >)
        requires
            old(self).wf(),
        ensures
            final(self).wf(),
            final(self).buffer_size() == old(self).buffer_size(),
            !live(old(self)@, ch) ==> r == Err::<(), L2capError>(L2capError::InvalidChannel)
                && final(self)@ == old(self)@,
            live(old(self)@, ch) && old(self)@[ch.slot as int].state != ChannelState::Connecting
                ==> r == Err::<(), L2capError>(L2capError::Disconnected) && final(self)@ == old(
                self,
            )@,
            live(old(self)@, ch) && old(self)@[ch.slot as int].state == ChannelState::Connecting
                ==> others_kept(old(self)@, final(self)@, ch.slot as int) && match resp {
                ConnectResponse::Accepted { remote_cid, mtu, mps, credits } => if min16(
                    old(self)@[ch.slot as int].mps,
                    mps,
                ) < 2 {
                    r == Err::<(), L2capError>(L2capError::ProtocolViolation)
                        && final(self)@[ch.slot as int].state == ChannelState::Free
                        && final(self)@[ch.slot as int].ref_count == 0
                } else {
                    &&& r is Ok
                    &&& final(self)@[ch.slot as int] == (ChannelSlot {
                        state: ChannelState::Connected,
                        remote_cid,
                        mtu: min16(old(self)@[ch.slot as int].mtu, mtu),
                        mps: min16(old(self)@[ch.slot as int].mps, mps),
                        tx_credits: credits,
                        ..old(self)@[ch.slot as int]
                    })
                },
                ConnectResponse::Rejected => r == Err::<(), L2capError>(L2capError::PeerRejected)
                    && final(self)@[ch.slot as int].state == ChannelState::Free
                    && final(self)@[ch.slot as int].ref_count == 0,
                ConnectResponse::TimedOut => r == Err::<(), L2capError>(L2capError::Timeout)
                    && final(self)@[ch.slot as int].state == ChannelState::Free
                    && final(self)@[ch.slot as int].ref_count == 0,
            },
    {
        if !self.is_live(ch) {
            return Err(L2capError::InvalidChannel);
        }
        if self.slots[ch.slot].state != ChannelState::Connecting {
            return Err(L2capError::Disconnected);
        }
        let i = ch.slot;
        match resp {
            ConnectResponse::Accepted { remote_cid, mtu, mps, credits } => {
                let m_mps = if self.slots[i].mps <= mps { self.slots[i].mps } else { mps };
                let m_mtu = if self.slots[i].mtu <= mtu { self.slots[i].mtu } else { mtu };
                if m_mps < 2 {
                    self.free_slot(i);
                    return Err(L2capError::ProtocolViolation);
                }
                self.slots[i].remote_cid = remote_cid;
                self.slots[i].mtu = m_mtu;
                self.slots[i].mps = m_mps;
                self.slots[i].tx_credits = credits;
                self.slots[i].state = ChannelState::Connected;
                Ok(())
            },
            ConnectResponse::Rejected => {
                self.free_slot(i);
                Err(L2capError::PeerRejected)
            },
            ConnectResponse::TimedOut => {
                self.free_slot(i);
                Err(L2capError::Timeout)
            },
        }
    }

    /// Answers the peer's connection request `req` on link `conn`. A request
    /// for a service outside `psms` is not for this listener: `None`, nothing
    /// changes. Otherwise the first free slot becomes a `Connected` channel with
    /// the smaller of each pair of sizes, holding one reference; `NoFreeChannel`
    /// when the table is full, `ProtocolViolation` when the agreed MPS cannot
    /// hold the length header.
    pub fn accept(
        &mut self,
        conn: u16,
        psms: &[u16],
        req: &PeerRequest,
        cfg: &L2capChannelConfig,
    ) -> (r: Result<Option<ChannelIndex>, L2capError>)
        requires
            old(self).wf(),
        ensures
            final(self).wf(),
            final(self).buffer_size() == old(self).buffer_size(),
            accepted(old(self)@, final(self)@, old(self).buffer_size(), conn, psms@, *req, *cfg, r),
    {
        let mut k: usize = 0;
        let mut found = false;
        while k < psms.len()
            invariant
                k <= psms@.len(),
                found == (exists|j: int| 0 <= j < k && psms@[j] == req.psm),
            decreases psms@.len() - k,
        {
            if psms[k] == req.psm {
                found = true;
            }
            k = k + 1;
        }
        assert(found == psms@.contains(req.psm));
        if !found {
            return Ok(None);
        }
        let slot = match self.allocate_free_slot() {
            None => { return Err(L2capError::NoFreeChannel); },
            Some(i) => i,
        };
        let pool = self.pool_buffer_size;
        let local_mps: u16 = match cfg.mps { Some(m) => m, None => pool - MPS_RESERVE };
        let local_mtu: u16 = match cfg.mtu { Some(m) => m, None => pool - MTU_RESERVE };
        let m_mps = if local_mps <= req.mps { local_mps } else { req.mps };
        let m_mtu = if local_mtu <= req.mtu { local_mtu } else { req.mtu };
        if m_mps < 2 {
            return Err(L2capError::ProtocolViolation);
        }
        let ch = self.open_slot(slot, conn, req.psm, cfg);
        self.slots[slot].remote_cid = req.remote_cid;
        self.slots[slot].mtu = m_mtu;
        self.slots[slot].mps = m_mps;
        self.slots[slot].tx_credits = req.credits;
        self.slots[slot].state = ChannelState::Connected;
        Ok(Some(ch))
    }
}

/// `a + b`, held at the largest `u64`.
fn sat_add(a: u64, b: u64) -> (r: u64)
    ensures
        r == sat_sum(a, b as nat),
{
    if a > u64::MAX - b {
        u64::MAX
    } else {
        a + b
    }
}

impl ChannelManager {
    /// Sends `payload` on the channel `ch` without waiting: either every frame
    /// of it can go now, and the frames come back with one transmit credit
    /// spent on each, or nothing is spent. `SizeViolation` when the payload is
    /// over the MTU, `Busy` when the credits do not cover all its frames.
    pub fn try_send(&mut self, ch: ChannelIndex, payload: &[u8]) -> (r: Result<
        Vec<Vec<u8>>,
        L2capError,
    >)
        requires
            old(self).wf(),
        ensures
            final(self).wf(),
            final(self).buffer_size() == old(self).buffer_size(),
            try_sent(old(self)@, final(self)@, ch, payload@, r),
    {
        if !self.is_live(ch) {
            return Err(L2capError::InvalidChannel);
        }
        let i = ch.slot;
        if self.slots[i].state != ChannelState::Connected {
            return Err(L2capError::Disconnected);
        }
        if payload.len() > self.slots[i].mtu as usize {
            return Err(L2capError::SizeViolation);
        }
        let frames = segment(payload, self.slots[i].mps);
        assert(frames@.len() == frame_views(frames@).len());
        if frames.len() > self.slots[i].tx_credits as usize {
            return Err(L2capError::Busy);
        }
        let n = frames.len();
        self.slots[i].tx_credits = self.slots[i].tx_credits - n as u16;
        let m = self.slots[i].metrics;
        self.slots[i].metrics = ChannelMetrics {
            frames_sent: sat_add(m.frames_sent, n as u64),
            bytes_sent: sat_add(m.bytes_sent, payload.len() as u64 + 2),
            ..m
        };
        Ok(frames)
    }

    /// Prepares `payload` for a send that waits for credits as it goes:
    /// `SizeViolation` when it is over the MTU. Nothing is spent yet.
    pub fn begin_send(&self, ch: ChannelIndex, payload: &[u8]) -> (r: Result<
        OutgoingSdu,
        L2capError,
    >)
        requires
            self.wf(),
        ensures
            send_begun(self@, ch, payload@, r),
    {
        if !self.is_live(ch) {
            return Err(L2capError::InvalidChannel);
        }
        let i = ch.slot;
        if self.slots[i].state != ChannelState::Connected {
            return Err(L2capError::Disconnected);
        }
        if payload.len() > self.slots[i].mtu as usize {
            return Err(L2capError::SizeViolation);
        }
        Ok(OutgoingSdu { frames: segment(payload, self.slots[i].mps), next: 0 })
    }

    /// One step of a waiting send on the channel `ch`: the next frame of `out`
    /// with one credit spent on it, `NeedCredits` when none is left, or
    /// `Complete`. A channel that closes meanwhile ends the send with
    /// `Disconnected`.
    pub fn send_next(&mut self, ch: ChannelIndex, out: &mut OutgoingSdu) -> (r: Result<
        SendStep,
        L2capError,
    >)
        requires
            old(self).wf(),
            old(out).next <= old(out).frames@.len(),
        ensures
            final(self).wf(),
            final(self).buffer_size() == old(self).buffer_size(),
            final(out).frames == old(out).frames,
            final(out).next <= final(out).frames@.len(),
            send_stepped(old(self)@, final(self)@, ch, *old(out), *final(out), r),
    {
        if !self.is_live(ch) {
            return Err(L2capError::InvalidChannel);
        }
        let i = ch.slot;
        if self.slots[i].state != ChannelState::Connected {
            return Err(L2capError::Disconnected);
        }
        if out.next == out.frames.len() {
            return Ok(SendStep::Complete);
        }
        if self.slots[i].tx_credits == 0 {
            return Ok(SendStep::NeedCredits);
        }
        let mut f: Vec<u8> = Vec::new();
        append_bytes(&mut f, out.frames[out.next].as_slice(), 0);
        assert(out.frames@[out.next as int]@.skip(0) == out.frames@[out.next as int]@);
        out.next = out.next + 1;
        self.slots[i].tx_credits = self.slots[i].tx_credits - 1;
        let m = self.slots[i].metrics;
        self.slots[i].metrics = ChannelMetrics {
            frames_sent: sat_add(m.frames_sent, 1),
            bytes_sent: sat_add(m.bytes_sent, f.len() as u64),
            ..m
        };
        Ok(SendStep::Transmit(f))
    }

    /// Takes `n` transmit credits that the peer granted to the channel `ch`.
    /// A grant that would take the count past `u16::MAX` breaks the protocol:
    /// the channel starts closing.
    pub fn add_tx_credits(&mut self, ch: ChannelIndex, n: u16) -> (r: Result<(), L2capError>)
        requires
            old(self).wf(),
        ensures
            final(self).wf(),
            final(self).buffer_size() == old(self).buffer_size(),
            !live(old(self)@, ch) ==> r == Err::<(), L2capError>(L2capError::InvalidChannel)
                && final(self)@ == old(self)@,
            live(old(self)@, ch) && old(self)@[ch.slot as int].state != ChannelState::Connected
                ==> r == Err::<(), L2capError>(L2capError::Disconnected) && final(self)@ == old(
                self,
            )@,
            live(old(self)@, ch) && old(self)@[ch.slot as int].state == ChannelState::Connected
                ==> others_kept(old(self)@, final(self)@, ch.slot as int) && if old(
                self,
            )@[ch.slot as int].tx_credits + n > u16::MAX {
                r == Err::<(), L2capError>(L2capError::ProtocolViolation) && final(self)@[ch.slot as int]
                    == (ChannelSlot {
                    state: ChannelState::Disconnecting,
                    ..old(self)@[ch.slot as int]
                })
            } else {
                r is Ok && final(self)@[ch.slot as int] == (ChannelSlot {
                    tx_credits: (old(self)@[ch.slot as int].tx_credits + n) as u16,
                    ..old(self)@[ch.slot as int]
                })
            },
    {
        if !self.is_live(ch) {
            return Err(L2capError::InvalidChannel);
        }
        let i = ch.slot;
        if self.slots[i].state != ChannelState::Connected {
            return Err(L2capError::Disconnected);
        }
        if self.slots[i].tx_credits > u16::MAX - n {
            self.slots[i].state = ChannelState::Disconnecting;
            return Err(L2capError::ProtocolViolation);
        }
        self.slots[i].tx_credits = self.slots[i].tx_credits + n;
        Ok(())
    }
}

/// What an inbound frame does to a connected slot that has a receive credit
/// left: one credit spent, reassembly stepped, a completed SDU queued, and a
/// framing violation starting the close.
pub open spec fn took_frame(s1: ChannelSlot, s2: ChannelSlot, frame: Seq<u8>) -> bool {
    let (st, o) = feed(s1.reassembly@, frame, s1.mps as nat, s1.mtu as nat);
    &&& s2.reassembly@ == st
    &&& frame_views(s2.inbox@) == (match o {
        Fed::Done(d) => frame_views(s1.inbox@).push(d),
        _ => frame_views(s1.inbox@),
    })
    &&& s2 == (ChannelSlot {
        state: if o is Broken {
            ChannelState::Disconnecting
        } else {
            ChannelState::Connected
        },
        rx_credits: (s1.rx_credits - 1) as u16,
        reassembly: s2.reassembly,
        inbox: s2.inbox,
        metrics: ChannelMetrics {
            frames_received: sat_sum(s1.metrics.frames_received, 1),
            sdus_received: if o is Done {
                sat_sum(s1.metrics.sdus_received, 1)
            } else {
                s1.metrics.sdus_received
            },
            ..s1.metrics
        },
        ..s1
    })
}

impl ChannelManager {
    /// Takes one inbound frame for the channel `ch`. It spends one receive
    /// credit; a frame with none left, or one that breaks the framing, is a
    /// `ProtocolViolation` that drops the SDU in progress and starts closing
    /// the channel. A frame that completes an SDU queues it for `poll_receive`.
    pub fn on_frame(&mut self, ch: ChannelIndex, frame: &[u8]) -> (r: Result<(), L2capError>)
        requires
            old(self).wf(),
        ensures
            final(self).wf(),
            final(self).buffer_size() == old(self).buffer_size(),
            !live(old(self)@, ch) ==> r == Err::<(), L2capError>(L2capError::InvalidChannel)
                && final(self)@ == old(self)@,
            live(old(self)@, ch) && old(self)@[ch.slot as int].state != ChannelState::Connected
                ==> r == Err::<(), L2capError>(L2capError::Disconnected) && final(self)@ == old(
                self,
            )@,
            live(old(self)@, ch) && old(self)@[ch.slot as int].state == ChannelState::Connected
                ==> {
                let s1 = old(self)@[ch.slot as int];
                let s2 = final(self)@[ch.slot as int];
                &&& others_kept(old(self)@, final(self)@, ch.slot as int)
                &&& live(final(self)@, ch)
                &&& if s1.rx_credits == 0 {
                    &&& r == Err::<(), L2capError>(L2capError::ProtocolViolation)
                    &&& s2.reassembly@ == Assembly::Idle
                    &&& s2 == (ChannelSlot {
                        state: ChannelState::Disconnecting,
                        reassembly: s2.reassembly,
                        ..s1
                    })
                } else {
                    &&& took_frame(s1, s2, frame@)
                    &&& (r is Err <==> feed(
                        s1.reassembly@,
                        frame@,
                        s1.mps as nat,
                        s1.mtu as nat,
                    ).1 is Broken)
                    &&& r is Err ==> r == Err::<(), L2capError>(L2capError::ProtocolViolation)
                }
            },
    {
        if !self.is_live(ch) {
            return Err(L2capError::InvalidChannel);
        }
        let i = ch.slot;
        if self.slots[i].state != ChannelState::Connected {
            return Err(L2capError::Disconnected);
        }
        if self.slots[i].rx_credits == 0 {
            self.slots[i].state = ChannelState::Disconnecting;
            self.slots[i].reassembly.reset();
            return Err(L2capError::ProtocolViolation);
        }
        self.slots[i].rx_credits = self.slots[i].rx_credits - 1;
        let m = self.slots[i].metrics;
        self.slots[i].metrics = ChannelMetrics { frames_received: sat_add(m.frames_received, 1), ..m };
        let mps = self.slots[i].mps;
        let mtu = self.slots[i].mtu;
        let ghost inbox0 = frame_views(self.slots@[i as int].inbox@);
        match self.slots[i].reassembly.push(frame, mps, mtu) {
            Err(e) => {
                self.slots[i].state = ChannelState::Disconnecting;
                Err(e)
            },
            Ok(None) => Ok(()),
            Ok(Some(sdu)) => {
                let ghost d = sdu@;
                self.slots[i].inbox.push(sdu);
                assert(frame_views(self.slots@[i as int].inbox@) == inbox0.push(d));
                let m = self.slots[i].metrics;
                self.slots[i].metrics = ChannelMetrics { sdus_received: sat_add(m.sdus_received, 1), ..m };
                Ok(())
            },
        }
    }

    /// Takes the oldest complete SDU of the channel `ch`, also while it
    /// closes; a channel still connecting gives `Disconnected`. `None` means the caller waits: the channel is open and nothing
    /// is ready. A channel with nothing ready that is not open gives
    /// `Disconnected`, so no receiver waits on a channel that is going away.
    pub fn poll_receive(&mut self, ch: ChannelIndex) -> (r: Result<Option<Vec<u8>>, L2capError>)
        requires
            old(self).wf(),
        ensures
            final(self).wf(),
            final(self).buffer_size() == old(self).buffer_size(),
            polled(old(self)@, final(self)@, ch, r),
    {
        if !self.is_live(ch) {
            return Err(L2capError::InvalidChannel);
        }
        let i = ch.slot;
        if self.slots[i].state == ChannelState::Connecting {
            return Err(L2capError::Disconnected);
        }
        if self.slots[i].inbox.len() > 0 {
            let sdu = self.slots[i].inbox.remove(0);
            return Ok(Some(sdu));
        }
        if self.slots[i].state == ChannelState::Connected {
            Ok(None)
        } else {
            Err(L2capError::Disconnected)
        }
    }

    /// Copies the oldest complete SDU of the channel `ch` into the front of
    /// `buf` and returns its length; as `poll_receive`, but an SDU longer
    /// than `buf` fails with `BufferTooSmall` and stays queued.
    pub fn receive(&mut self, ch: ChannelIndex, buf: &mut [u8]) -> (r: Result<
        Option<usize>,
        L2capError,
    >)
        requires
            old(self).wf(),
        ensures
            final(self).wf(),
            final(self).buffer_size() == old(self).buffer_size(),
            received(old(self)@, final(self)@, ch, old(buf)@, final(buf)@, r),
    {
        if !self.is_live(ch) {
            return Err(L2capError::InvalidChannel);
        }
        let i = ch.slot;
        if self.slots[i].state == ChannelState::Connecting {
            return Err(L2capError::Disconnected);
        }
        if self.slots[i].inbox.len() == 0 {
            if self.slots[i].state == ChannelState::Connected {
                return Ok(None);
            } else {
                return Err(L2capError::Disconnected);
            }
        }
        let n = self.slots[i].inbox[0].len();
        if n > buf.len() {
            return Err(L2capError::BufferTooSmall);
        }
        let sdu = self.slots[i].inbox.remove(0);
        let ghost b0 = buf@;
        let mut k: usize = 0;
        while k < n
            invariant
                n == sdu@.len(),
                n <= buf@.len(),
                k <= n,
                buf@.len() == b0.len(),
                buf@.take(k as int) == sdu@.take(k as int),
                buf@.skip(n as int) == b0.skip(n as int),
            decreases n - k,
        {
            buf[k] = sdu[k];
            k = k + 1;
            assert(buf@.take(k as int) == sdu@.take(k as int));
            assert(buf@.skip(n as int) == b0.skip(n as int));
        }
        assert(sdu@.take(n as int) == sdu@);
        Ok(Some(n))
    }

    /// Receive credits to give back to the peer of the channel `ch` now. Under
    /// automatic flow control, once the credits left fall to the low-water mark
    /// they are topped back up to the initial amount and the difference is
    /// returned; otherwise nothing is granted.
    pub fn credit_grant(&mut self, ch: ChannelIndex) -> (r: Result<u16, L2capError>)
        requires
            old(self).wf(),
        ensures
            final(self).wf(),
            final(self).buffer_size() == old(self).buffer_size(),
            !live(old(self)@, ch) ==> r == Err::<u16, L2capError>(L2capError::InvalidChannel)
                && final(self)@ == old(self)@,
            live(old(self)@, ch) ==> {
                let s = old(self)@[ch.slot as int];
                if s.state == ChannelState::Connected && s.rx_credits < s.initial_credits && (
                s.flow_policy matches CreditFlowPolicy::Automatic { low_water } && s.rx_credits
                    <= low_water) {
                    &&& r == Ok::<u16, L2capError>((s.initial_credits - s.rx_credits) as u16)
                    &&& others_kept(old(self)@, final(self)@, ch.slot as int)
                    &&& final(self)@[ch.slot as int] == (ChannelSlot {
                        rx_credits: s.initial_credits,
                        ..s
                    })
                } else {
                    r == Ok::<u16, L2capError>(0) && final(self)@ == old(self)@
                }
            },
    {
        if !self.is_live(ch) {
            return Err(L2capError::InvalidChannel);
        }
        let i = ch.slot;
        if self.slots[i].state != ChannelState::Connected {
            return Ok(0);
        }
        let rx = self.slots[i].rx_credits;
        let initial = self.slots[i].initial_credits;
        match self.slots[i].flow_policy {
            CreditFlowPolicy::Automatic { low_water } => {
                if rx <= low_water && rx < initial {
                    self.slots[i].rx_credits = initial;
                    Ok(initial - rx)
                } else {
                    Ok(0)
                }
            },
            CreditFlowPolicy::Explicit => Ok(0),
        }
    }

    /// The open channel on link `conn` whose local identifier is `cid`.
    pub fn find_channel(&self, conn: u16, cid: u16) -> (r: Option<ChannelIndex>)
        ensures
            r matches Some(ch) ==> live(self@, ch) && self@[ch.slot as int].conn == conn
                && self@[ch.slot as int].local_cid == cid,
            r is None ==> forall|j: int|
                0 <= j < self@.len() ==> !(#[trigger] self@[j].state != ChannelState::Free
                    && self@[j].conn == conn && self@[j].local_cid == cid),
    {
        let mut i: usize = 0;
        while i < self.slots.len()
            invariant
                i <= self@.len(),
                self@ == self.slots@,
                forall|j: int|
                    0 <= j < i ==> !(#[trigger] self@[j].state != ChannelState::Free
                        && self@[j].conn == conn && self@[j].local_cid == cid),
            decreases self@.len() - i,
        {
            if self.slots[i].state != ChannelState::Free && self.slots[i].conn == conn
                && self.slots[i].local_cid == cid {
                return Some(ChannelIndex { slot: i, generation: self.slots[i].generation });
            }
            i = i + 1;
        }
        None
    }
}

/// Releasing the last reference of a closing channel frees its slot, and a
/// `create` that follows succeeds; it takes this very slot when no slot before
/// it was free.
pub proof fn lemma_release_frees_slot(
    m1: Seq<ChannelSlot>,
    m2: Seq<ChannelSlot>,
    m3: Seq<ChannelSlot>,
    ch: ChannelIndex,
    pool: nat,
    conn: u16,
    psm: u16,
    cfg: L2capChannelConfig,
    r: Result<ChannelIndex, L2capError>,
)
    requires
        live(m1, ch),
        m1[ch.slot as int].state == ChannelState::Disconnecting,
        m1[ch.slot as int].ref_count == 1,
        released(m1, m2, ch),
        created(m2, m3, pool, conn, psm, cfg, r),
    ensures
        eligible(m2[ch.slot as int]),
        r is Ok,
        (forall|j: int| 0 <= j < ch.slot ==> !eligible(#[trigger] m1[j])) ==> (r matches Ok(c)
            && c.slot == ch.slot),
{
    assert forall|j: int| 0 <= j < ch.slot && !eligible(#[trigger] m1[j]) implies !eligible(m2[j]) by {
        assert(m2[j] == m1[j]);
    }
    assert(eligible(m2[ch.slot as int]));
    if (forall|j: int| 0 <= j < ch.slot ==> !eligible(#[trigger] m1[j])) {
        if let Ok(c) = r {
            if c.slot < ch.slot {
                assert(!eligible(m2[c.slot as int]));
            } else if c.slot > ch.slot {
                assert(!eligible(m2[ch.slot as int]));
            }
        }
    }
}

/// A waiting send spends exactly one transmit credit on each frame it puts on
/// the link: after `steps` transmitted frames of a send begun on `payload`,
/// `steps` credits are gone and `steps` frames of the payload's segments are out.
pub proof fn lemma_send_spends_one_credit_per_frame(
    ms: Seq<Seq<ChannelSlot>>,
    outs: Seq<OutgoingSdu>,
    steps: Seq<Result<SendStep, L2capError>>,
    ch: ChannelIndex,
    payload: Seq<u8>,
)
    requires
        ms.len() == steps.len() + 1,
        outs.len() == steps.len() + 1,
        send_begun(ms[0], ch, payload, Ok(outs[0])),
        forall|k: int|
            0 <= k < steps.len() ==> #[trigger] send_stepped(
                ms[k],
                ms[k + 1],
                ch,
                outs[k],
                outs[k + 1],
                steps[k],
            ),
        forall|k: int| 0 <= k < steps.len() ==> #[trigger] steps[k] matches Ok(SendStep::Transmit(_)),
    ensures
        ms[steps.len() as int][ch.slot as int].tx_credits == ms[0][ch.slot as int].tx_credits
            - steps.len(),
        outs[steps.len() as int].next == steps.len(),
        steps.len() <= segments(payload, ms[0][ch.slot as int].mps as nat).len(),
{
    lemma_send_prefix(ms, outs, steps, ch, payload, steps.len());
}

proof fn lemma_send_prefix(
    ms: Seq<Seq<ChannelSlot>>,
    outs: Seq<OutgoingSdu>,
    steps: Seq<Result<SendStep, L2capError>>,
    ch: ChannelIndex,
    payload: Seq<u8>,
    n: nat,
)
    requires
        n <= steps.len(),
        ms.len() == steps.len() + 1,
        outs.len() == steps.len() + 1,
        send_begun(ms[0], ch, payload, Ok(outs[0])),
        forall|k: int|
            0 <= k < steps.len() ==> #[trigger] send_stepped(
                ms[k],
                ms[k + 1],
                ch,
                outs[k],
                outs[k + 1],
                steps[k],
            ),
        forall|k: int| 0 <= k < steps.len() ==> #[trigger] steps[k] matches Ok(SendStep::Transmit(_)),
    ensures
        live(ms[n as int], ch),
        ms[n as int][ch.slot as int].state == ChannelState::Connected,
        ms[n as int][ch.slot as int].mps == ms[0][ch.slot as int].mps,
        ms[n as int][ch.slot as int].tx_credits == ms[0][ch.slot as int].tx_credits - n,
        outs[n as int].next == n,
        outs[n as int].frames == outs[0].frames,
        n <= frame_views(outs[0].frames@).len(),
    decreases n,
{
    if n > 0 {
        lemma_send_prefix(ms, outs, steps, ch, payload, (n - 1) as nat);
        let k = n - 1;
        assert(send_stepped(ms[k], ms[k + 1], ch, outs[k], outs[k + 1], steps[k]));
        assert(steps[k] matches Ok(SendStep::Transmit(_)));
    }
}

/// The frames that segment `data` at a connected slot's MPS, taken in order by
/// a slot with no SDU in progress (each as `on_frame` takes a frame while a
/// receive credit is left), queue exactly `data` and leave the slot connected
/// with no SDU in progress.
pub proof fn lemma_frames_deliver_sdu(ss: Seq<ChannelSlot>, data: Seq<u8>)
    requires
        ss.len() >= 1,
        ss[0].mps >= 2,
        data.len() <= ss[0].mtu,
        ss[0].reassembly@ == Assembly::Idle,
        ss.len() == segments(data, ss[0].mps as nat).len() + 1,
        forall|k: int|
            0 <= k < ss.len() - 1 ==> #[trigger] took_frame(
                ss[k],
                ss[k + 1],
                segments(data, ss[0].mps as nat)[k],
            ),
    ensures
        ss.last().state == ChannelState::Connected,
        ss.last().reassembly@ == Assembly::Idle,
        frame_views(ss.last().inbox@) == frame_views(ss[0].inbox@).push(data),
{
    let c = (ss.len() - 1) as nat;
    lemma_frames_prefix(ss, data, c);
    let segs = segments(data, ss[0].mps as nat);
    assert(segs.take(c as int) == segs);
    crate::sar::lemma_round_trip(data, ss[0].mps as nat, ss[0].mtu as nat);
}

proof fn lemma_frames_prefix(ss: Seq<ChannelSlot>, data: Seq<u8>, k: nat)
    requires
        ss.len() >= 1,
        ss[0].mps >= 2,
        data.len() <= ss[0].mtu,
        ss[0].reassembly@ == Assembly::Idle,
        ss.len() == segments(data, ss[0].mps as nat).len() + 1,
        forall|j: int|
            0 <= j < ss.len() - 1 ==> #[trigger] took_frame(
                ss[j],
                ss[j + 1],
                segments(data, ss[0].mps as nat)[j],
            ),
        k < ss.len(),
    ensures
        ss[k as int].mps == ss[0].mps,
        ss[k as int].mtu == ss[0].mtu,
        ss[k as int].reassembly@ == feed_all(
            Assembly::Idle,
            segments(data, ss[0].mps as nat).take(k as int),
            ss[0].mps as nat,
            ss[0].mtu as nat,
        ).0,
        k > 0 ==> ss[k as int].state == ChannelState::Connected,
        k + 1 < ss.len() ==> frame_views(ss[k as int].inbox@) == frame_views(ss[0].inbox@),
        k + 1 == ss.len() ==> frame_views(ss[k as int].inbox@) == frame_views(ss[0].inbox@).push(
            data,
        ),
    decreases k,
{
    let mps = ss[0].mps as nat;
    let mtu = ss[0].mtu as nat;
    let segs = segments(data, mps);
    let c = segs.len();
    if k == 0 {
        assert(segs.take(0) == Seq::<Seq<u8>>::empty());
        crate::sar::lemma_segment_shape(data, mps);
        assert(c >= 1) by {
            assert(((data.len() + 2 + mps - 1) as nat) / mps >= 1) by (nonlinear_arith)
                requires
                    mps >= 2,
            ;
        }
    } else {
        let j = (k - 1) as nat;
        lemma_frames_prefix(ss, data, j);
        assert(took_frame(ss[j as int], ss[k as int], segs[j as int]));
        assert(segs.take(k as int) == segs.take(j as int).push(segs[j as int]));
        lemma_feed_all_push(Assembly::Idle, segs.take(j as int), segs[j as int], mps, mtu);
        lemma_round_trip_prefix(data, mps, mtu, k);
        let pre = feed_all(Assembly::Idle, segs.take(k as int), mps, mtu).1;
        let st_j = feed_all(Assembly::Idle, segs.take(j as int), mps, mtu).0;
        let o = feed(st_j, segs[j as int], mps, mtu).1;
        assert(pre[j as int] == o);
        assert(pre[j as int] == delivered(c, data)[j as int]);
        if k < c {
            assert(o == Fed::More);
        } else {
            assert(o == Fed::Done(data));
        }
    }
}

/// Closing a channel leaves no receiver waiting on it: a receive that follows
/// delivers an SDU that was already complete, or fails as disconnected.
pub proof fn lemma_disconnect_wakes_receiver(
    m1: Seq<ChannelSlot>,
    m2: Seq<ChannelSlot>,
    m3: Seq<ChannelSlot>,
    ch: ChannelIndex,
    d: Result<(), L2capError>,
    r: Result<Option<Vec<u8>>, L2capError>,
)
    requires
        live(m1, ch),
        disconnected(m1, m2, ch, d),
        polled(m2, m3, ch, r),
    ensures
        !(r matches Ok(None)),
        m1[ch.slot as int].inbox@.len() == 0 ==> r == Err::<Option<Vec<u8>>, L2capError>(
            L2capError::Disconnected,
        ),
        m1[ch.slot as int].inbox@.len() > 0 ==> (r matches Ok(Some(sdu)) && sdu@ == m1[ch.slot as int].inbox@[0]@),
{
    assert(live(m2, ch));
    assert(!receive_waits(m2[ch.slot as int]));
}

} // verus!
