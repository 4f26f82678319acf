//! Handles onto the channels of a `ChannelManager`. Each handle holds one
//! reference to its slot and gives it back with `release`.
use vstd::prelude::*;

use crate::error::L2capError;
use crate::manager::{
    ChannelIndex, ChannelManager, ChannelMetrics, L2capChannelConfig, OutgoingSdu, PeerRequest,
    SendStep, accepted, acquired, created, disconnected, live, polled, received, release_leaves_peer_open, released, send_begun,
    send_stepped, try_sent,
};

verus! {

/// Handle representing an L2CAP channel.
pub struct L2capChannel {
    index: ChannelIndex,
}

impl L2capChannel {
    /// The channel lifetime this handle names.
    pub closed spec fn id(&self) -> ChannelIndex {
        self.index
    }

    /// The channel lifetime this handle names.
    pub fn index(&self) -> (r: ChannelIndex)
        ensures
            r == self.id(),
    {
        self.index
    }

    pub(crate) fn new(index: ChannelIndex) -> (r: Self)
        ensures
            r.id() == index,
    {
        L2capChannel { index }
    }

    /// Asks the peer on link `conn` for a channel to service `psm`; the channel
    /// waits in `Connecting` until `ChannelManager::on_connect_response`.
    pub fn create(
        mgr: &mut ChannelManager,
        conn: u16,
        psm: u16,
        config: &L2capChannelConfig,
    ) -> (r: Result<Self, L2capError>)
        requires
            old(mgr).wf(),
        ensures
            final(mgr).wf(),
            final(mgr).buffer_size() == old(mgr).buffer_size(),
            created(old(mgr)@, final(mgr)@, old(mgr).buffer_size(), conn, psm, *config, match r {
                Ok(c) => Ok(c.id()),
                Err(e) => Err(e),
            }),
    {
        match mgr.create(conn, psm, config) {
            Ok(index) => Ok(L2capChannel::new(index)),
            Err(e) => Err(e),
        }
    }

    /// Answers the peer's connection request `req` on link `conn` when it is
    /// for one of `psms`; `None` when it is not.
    pub fn accept(
        mgr: &mut ChannelManager,
        conn: u16,
        psms: &[u16],
        req: &PeerRequest,
        config: &L2capChannelConfig,
    ) -> (r: Result<Option<Self>, L2capError>)
        requires
            old(mgr).wf(),
        ensures
            final(mgr).wf(),
            final(mgr).buffer_size() == old(mgr).buffer_size(),
            accepted(
                old(mgr)@,
                final(mgr)@,
                old(mgr).buffer_size(),
                conn,
                psms@,
                *req,
                *config,
                match r {
                    Ok(Some(c)) => Ok(Some(c.id())),
                    Ok(None) => Ok(None),
                    Err(e) => Err(e),
                },
            ),
    {
        match mgr.accept(conn, psms, req, config) {
            Ok(Some(index)) => Ok(Some(L2capChannel::new(index))),
            Ok(None) => Ok(None),
            Err(e) => Err(e),
        }
    }

    /// Splits the channel into a writer and a reader that can be used
    /// independently. The two halves hold one reference more than the channel
    /// did; when no further reference can be counted the channel comes back.
    pub fn split(self, mgr: &mut ChannelManager) -> (r: Result<
        (L2capChannelWriter, L2capChannelReader),
        L2capChannel,
    >)
        requires
            old(mgr).wf(),
        ensures
            final(mgr).wf(),
            final(mgr).buffer_size() == old(mgr).buffer_size(),
            r matches Ok((w, rd)) ==> w.id() == self.id() && rd.id() == self.id() && acquired(
                old(mgr)@,
                final(mgr)@,
                self.id(),
                Ok(()),
            ),
            r matches Err(c) ==> c.id() == self.id() && final(mgr)@ == old(mgr)@,
            r is Ok <==> (live(old(mgr)@, self.id()) && old(mgr)@[self.id().slot as int].ref_count
                < u32::MAX),
    {
        match mgr.inc_ref(self.index) {
            Ok(()) => Ok(
                (L2capChannelWriter { index: self.index }, L2capChannelReader { index: self.index }),
            ),
            Err(_) => Err(self),
        }
    }

    /// Joins a writer and a reader of one channel back into a channel, one
    /// reference fewer. Halves of different channels are refused and handed back.
    pub fn merge(
        writer: L2capChannelWriter,
        reader: L2capChannelReader,
        mgr: &mut ChannelManager,
    ) -> (r: Result<Self, (L2capChannelWriter, L2capChannelReader)>)
        requires
            old(mgr).wf(),
        ensures
            final(mgr).wf(),
            final(mgr).buffer_size() == old(mgr).buffer_size(),
            writer.id() != reader.id() ==> (r matches Err((w, rd)) && w.id() == writer.id()
                && rd.id() == reader.id() && final(mgr)@ == old(mgr)@),
            writer.id() == reader.id() ==> (r matches Ok(c) && c.id() == writer.id() && released(
                old(mgr)@,
                final(mgr)@,
                writer.id(),
            )),
    {
        if writer.index != reader.index {
            return Err((writer, reader));
        }
        let index = writer.index;
        mgr.dec_ref(index);
        Ok(L2capChannel { index })
    }

    /// Starts closing the channel.
    pub fn disconnect(&mut self, mgr: &mut ChannelManager) -> (r: Result<(), L2capError>)
        requires
            old(mgr).wf(),
        ensures
            final(mgr).wf(),
            final(mgr).buffer_size() == old(mgr).buffer_size(),
            final(self).id() == old(self).id(),
            disconnected(old(mgr)@, final(mgr)@, old(self).id(), r),
    {
        mgr.disconnect(self.index)
    }

    /// Protocol/service multiplexer of the channel.
    pub fn psm(&self, mgr: &ChannelManager) -> (r: Result<u16, L2capError>)
        ensures
            live(mgr@, self.id()) ==> r == Ok::<u16, L2capError>(mgr@[self.id().slot as int].psm),
            !live(mgr@, self.id()) ==> r == Err::<u16, L2capError>(L2capError::InvalidChannel),
    {
        mgr.psm(self.index)
    }

    /// Sends `buf` now if the transmit credits cover all of its frames; the
    /// frames come back to be put on the link.
    pub fn try_send(&mut self, mgr: &mut ChannelManager, buf: &[u8]) -> (r: Result<
        Vec<Vec<u8>>,
        L2capError,
    >)
        requires
            old(mgr).wf(),
        ensures
            final(mgr).wf(),
            final(mgr).buffer_size() == old(mgr).buffer_size(),
            final(self).id() == old(self).id(),
            try_sent(old(mgr)@, final(mgr)@, old(self).id(), buf@, r),
    {
        mgr.try_send(self.index, buf)
    }

    /// Cuts `buf` into frames for a send that waits for credits as it goes.
    pub fn begin_send(&self, mgr: &ChannelManager, buf: &[u8]) -> (r: Result<
        OutgoingSdu,
        L2capError,
    >)
        requires
            mgr.wf(),
        ensures
            send_begun(mgr@, self.id(), buf@, r),
    {
        mgr.begin_send(self.index, buf)
    }

    /// One step of a waiting send: the next frame to put on the link, a wait
    /// for credits, or the end.
    pub fn send_next(&mut self, mgr: &mut ChannelManager, out: &mut OutgoingSdu) -> (r: Result<
        SendStep,
        L2capError,
    >)
        requires
            old(mgr).wf(),
            old(out).next <= old(out).frames@.len(),
        ensures
            final(mgr).wf(),
            final(mgr).buffer_size() == old(mgr).buffer_size(),
            final(self).id() == old(self).id(),
            final(out).frames == old(out).frames,
            final(out).next <= final(out).frames@.len(),
            send_stepped(old(mgr)@, final(mgr)@, old(self).id(), *old(out), *final(out), r),
    {
        mgr.send_next(self.index, out)
    }

    /// Copies the next complete SDU into the front of `buf` and returns its
    /// length; `None` while the caller has to wait.
    pub fn receive(&mut self, mgr: &mut ChannelManager, buf: &mut [u8]) -> (r: Result<
        Option<usize>,
        L2capError,
    >)
        requires
            old(mgr).wf(),
        ensures
            final(mgr).wf(),
            final(mgr).buffer_size() == old(mgr).buffer_size(),
            final(self).id() == old(self).id(),
            received(old(mgr)@, final(mgr)@, old(self).id(), old(buf)@, final(buf)@, r),
    {
        mgr.receive(self.index, buf)
    }

    /// Takes the next complete SDU; `None` while the caller has to wait.
    pub fn receive_sdu(&mut self, mgr: &mut ChannelManager) -> (r: Result<
        Option<Vec<u8>>,
        L2capError,
    >)
        requires
            old(mgr).wf(),
        ensures
            final(mgr).wf(),
            final(mgr).buffer_size() == old(mgr).buffer_size(),
            final(self).id() == old(self).id(),
            polled(old(mgr)@, final(mgr)@, old(self).id(), r),
    {
        mgr.poll_receive(self.index)
    }

    /// Traffic counters of the channel.
    pub fn metrics(&self, mgr: &ChannelManager) -> (r: Result<ChannelMetrics, L2capError>)
        ensures
            live(mgr@, self.id()) ==> r == Ok::<ChannelMetrics, L2capError>(
                mgr@[self.id().slot as int].metrics,
            ),
            !live(mgr@, self.id()) ==> r == Err::<ChannelMetrics, L2capError>(
                L2capError::InvalidChannel,
            ),
    {
        mgr.metrics(self.index)
    }

    /// Gives the handle's reference back. The last one frees the slot; the
    /// result tells whether the channel was still open, so that the peer must
    /// still be told.
    pub fn release(self, mgr: &mut ChannelManager) -> (r: bool)
        requires
            old(mgr).wf(),
        ensures
            final(mgr).wf(),
            final(mgr).buffer_size() == old(mgr).buffer_size(),
            released(old(mgr)@, final(mgr)@, self.id()),
            r == release_leaves_peer_open(old(mgr)@, self.id()),
    {
        mgr.dec_ref(self.index)
    }
}

/// Handle representing an L2CAP channel write endpoint.
pub struct L2capChannelWriter {
    index: ChannelIndex,
}

impl L2capChannelWriter {
    /// The channel lifetime this handle names.
    pub closed spec fn id(&self) -> ChannelIndex {
        self.index
    }

    /// The channel lifetime this handle names.
    pub fn index(&self) -> (r: ChannelIndex)
        ensures
            r == self.id(),
    {
        self.index
    }

    /// Starts closing the channel.
    pub fn disconnect(&mut self, mgr: &mut ChannelManager) -> (r: Result<(), L2capError>)
        requires
            old(mgr).wf(),
        ensures
            final(mgr).wf(),
            final(mgr).buffer_size() == old(mgr).buffer_size(),
            final(self).id() == old(self).id(),
            disconnected(old(mgr)@, final(mgr)@, old(self).id(), r),
    {
        mgr.disconnect(self.index)
    }

    /// Sends `buf` now if the transmit credits cover all of its frames; the
    /// frames come back to be put on the link.
    pub fn try_send(&mut self, mgr: &mut ChannelManager, buf: &[u8]) -> (r: Result<
        Vec<Vec<u8>>,
        L2capError,
    >)
        requires
            old(mgr).wf(),
        ensures
            final(mgr).wf(),
            final(mgr).buffer_size() == old(mgr).buffer_size(),
            final(self).id() == old(self).id(),
            try_sent(old(mgr)@, final(mgr)@, old(self).id(), buf@, r),
    {
        mgr.try_send(self.index, buf)
    }

    /// Cuts `buf` into frames for a send that waits for credits as it goes.
    pub fn begin_send(&self, mgr: &ChannelManager, buf: &[u8]) -> (r: Result<
        OutgoingSdu,
        L2capError,
    >)
        requires
            mgr.wf(),
        ensures
            send_begun(mgr@, self.id(), buf@, r),
    {
        mgr.begin_send(self.index, buf)
    }

    /// One step of a waiting send: the next frame to put on the link, a wait
    /// for credits, or the end.
    pub fn send_next(&mut self, mgr: &mut ChannelManager, out: &mut OutgoingSdu) -> (r: Result<
        SendStep,
        L2capError,
    >)
        requires
            old(mgr).wf(),
            old(out).next <= old(out).frames@.len(),
        ensures
            final(mgr).wf(),
            final(mgr).buffer_size() == old(mgr).buffer_size(),
            final(self).id() == old(self).id(),
            final(out).frames == old(out).frames,
            final(out).next <= final(out).frames@.len(),
            send_stepped(old(mgr)@, final(mgr)@, old(self).id(), *old(out), *final(out), r),
    {
        mgr.send_next(self.index, out)
    }

    /// Traffic counters of the channel.
    pub fn metrics(&self, mgr: &ChannelManager) -> (r: Result<ChannelMetrics, L2capError>)
        ensures
            live(mgr@, self.id()) ==> r == Ok::<ChannelMetrics, L2capError>(
                mgr@[self.id().slot as int].metrics,
            ),
            !live(mgr@, self.id()) ==> r == Err::<ChannelMetrics, L2capError>(
                L2capError::InvalidChannel,
            ),
    {
        mgr.metrics(self.index)
    }

    /// A further handle on the channel, for checking its state.
    pub fn channel_ref(&mut self, mgr: &mut ChannelManager) -> (r: Result<
        L2capChannelRef,
        L2capError,
    >)
        requires
            old(mgr).wf(),
        ensures
            final(mgr).wf(),
            final(mgr).buffer_size() == old(mgr).buffer_size(),
            final(self).id() == old(self).id(),
            acquired(old(mgr)@, final(mgr)@, old(self).id(), match r {
                Ok(_) => Ok(()),
                Err(e) => Err(e),
            }),
            r matches Ok(h) ==> h.id() == old(self).id(),
    {
        match mgr.inc_ref(self.index) {
            Ok(()) => Ok(L2capChannelRef { index: self.index }),
            Err(e) => Err(e),
        }
    }

    /// Gives the handle's reference back. The last one frees the slot; the
    /// result tells whether the channel was still open, so that the peer must
    /// still be told.
    pub fn release(self, mgr: &mut ChannelManager) -> (r: bool)
        requires
            old(mgr).wf(),
        ensures
            final(mgr).wf(),
            final(mgr).buffer_size() == old(mgr).buffer_size(),
            released(old(mgr)@, final(mgr)@, self.id()),
            r == release_leaves_peer_open(old(mgr)@, self.id()),
    {
        mgr.dec_ref(self.index)
    }
}

/// Handle representing an L2CAP channel read endpoint.
pub struct L2capChannelReader {
    index: ChannelIndex,
}

impl L2capChannelReader {
    /// The channel lifetime this handle names.
    pub closed spec fn id(&self) -> ChannelIndex {
        self.index
    }

    /// The channel lifetime this handle names.
    pub fn index(&self) -> (r: ChannelIndex)
        ensures
            r == self.id(),
    {
        self.index
    }

    /// Starts closing the channel.
    pub fn disconnect(&mut self, mgr: &mut ChannelManager) -> (r: Result<(), L2capError>)
        requires
            old(mgr).wf(),
        ensures
            final(mgr).wf(),
            final(mgr).buffer_size() == old(mgr).buffer_size(),
            final(self).id() == old(self).id(),
            disconnected(old(mgr)@, final(mgr)@, old(self).id(), r),
    {
        mgr.disconnect(self.index)
    }

    /// Copies the next complete SDU into the front of `buf` and returns its
    /// length; `None` while the caller has to wait.
    pub fn receive(&mut self, mgr: &mut ChannelManager, buf: &mut [u8]) -> (r: Result<
        Option<usize>,
        L2capError,
    >)
        requires
            old(mgr).wf(),
        ensures
            final(mgr).wf(),
            final(mgr).buffer_size() == old(mgr).buffer_size(),
            final(self).id() == old(self).id(),
            received(old(mgr)@, final(mgr)@, old(self).id(), old(buf)@, final(buf)@, r),
    {
        mgr.receive(self.index, buf)
    }

    /// Takes the next complete SDU; `None` while the caller has to wait.
    pub fn receive_sdu(&mut self, mgr: &mut ChannelManager) -> (r: Result<
        Option<Vec<u8>>,
        L2capError,
    >)
        requires
            old(mgr).wf(),
        ensures
            final(mgr).wf(),
            final(mgr).buffer_size() == old(mgr).buffer_size(),
            final(self).id() == old(self).id(),
            polled(old(mgr)@, final(mgr)@, old(self).id(), r),
    {
        mgr.poll_receive(self.index)
    }

    /// Traffic counters of the channel.
    pub fn metrics(&self, mgr: &ChannelManager) -> (r: Result<ChannelMetrics, L2capError>)
        ensures
            live(mgr@, self.id()) ==> r == Ok::<ChannelMetrics, L2capError>(
                mgr@[self.id().slot as int].metrics,
            ),
            !live(mgr@, self.id()) ==> r == Err::<ChannelMetrics, L2capError>(
                L2capError::InvalidChannel,
            ),
    {
        mgr.metrics(self.index)
    }

    /// A further handle on the channel, for checking its state.
    pub fn channel_ref(&mut self, mgr: &mut ChannelManager) -> (r: Result<
        L2capChannelRef,
        L2capError,
    >)
        requires
            old(mgr).wf(),
        ensures
            final(mgr).wf(),
            final(mgr).buffer_size() == old(mgr).buffer_size(),
            final(self).id() == old(self).id(),
            acquired(old(mgr)@, final(mgr)@, old(self).id(), match r {
                Ok(_) => Ok(()),
                Err(e) => Err(e),
            }),
            r matches Ok(h) ==> h.id() == old(self).id(),
    {
        match mgr.inc_ref(self.index) {
            Ok(()) => Ok(L2capChannelRef { index: self.index }),
            Err(e) => Err(e),
        }
    }

    /// Gives the handle's reference back. The last one frees the slot; the
    /// result tells whether the channel was still open, so that the peer must
    /// still be told.
    pub fn release(self, mgr: &mut ChannelManager) -> (r: bool)
        requires
            old(mgr).wf(),
        ensures
            final(mgr).wf(),
            final(mgr).buffer_size() == old(mgr).buffer_size(),
            released(old(mgr)@, final(mgr)@, self.id()),
            r == release_leaves_peer_open(old(mgr)@, self.id()),
    {
        mgr.dec_ref(self.index)
    }
}

/// Handle to an L2CAP channel for checking its state.
pub struct L2capChannelRef {
    index: ChannelIndex,
}

impl L2capChannelRef {
    /// The channel lifetime this handle names.
    pub closed spec fn id(&self) -> ChannelIndex {
        self.index
    }

    /// The channel lifetime this handle names.
    pub fn index(&self) -> (r: ChannelIndex)
        ensures
            r == self.id(),
    {
        self.index
    }

    /// Traffic counters of the channel.
    pub fn metrics(&self, mgr: &ChannelManager) -> (r: Result<ChannelMetrics, L2capError>)
        ensures
            live(mgr@, self.id()) ==> r == Ok::<ChannelMetrics, L2capError>(
                mgr@[self.id().slot as int].metrics,
            ),
            !live(mgr@, self.id()) ==> r == Err::<ChannelMetrics, L2capError>(
                L2capError::InvalidChannel,
            ),
    {
        mgr.metrics(self.index)
    }

    /// Gives the handle's reference back. The last one frees the slot; the
    /// result tells whether the channel was still open, so that the peer must
    /// still be told.
    pub fn release(self, mgr: &mut ChannelManager) -> (r: bool)
        requires
            old(mgr).wf(),
        ensures
            final(mgr).wf(),
            final(mgr).buffer_size() == old(mgr).buffer_size(),
            released(old(mgr)@, final(mgr)@, self.id()),
            r == release_leaves_peer_open(old(mgr)@, self.id()),
    {
        mgr.dec_ref(self.index)
    }
}

} // verus!
