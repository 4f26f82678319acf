use l2cap::channel::L2capChannel;
use l2cap::error::L2capError;
use l2cap::manager::{
    ChannelIndex, ChannelManager, ChannelState, ConnectResponse, CreditFlowPolicy,
    L2capChannelConfig, PeerRequest, SendStep,
};

const CONN: u16 = 7;

fn config(mtu: u16, mps: u16, credits: u16) -> L2capChannelConfig {
    L2capChannelConfig {
        mtu: Some(mtu),
        mps: Some(mps),
        flow_policy: CreditFlowPolicy::Automatic { low_water: 2 },
        initial_credits: Some(credits),
    }
}

fn connected(mgr: &mut ChannelManager, mtu: u16, mps: u16, tx: u16) -> ChannelIndex {
    let ch = mgr.create(CONN, 0x80, &config(mtu, mps, 10)).unwrap();
    let resp = ConnectResponse::Accepted { remote_cid: 0x41, mtu, mps, credits: tx };
    mgr.on_connect_response(ch, resp).unwrap();
    ch
}

#[test]
fn send_of_fifty_bytes_spends_three_credits() {
    let mut mgr = ChannelManager::new(2, 251);
    let ch = connected(&mut mgr, 100, 23, 10);
    let frames = mgr.try_send(ch, &[5u8; 50]).unwrap();
    assert_eq!(frames.len(), 3);
    assert_eq!(frames[0].len(), 23);
    assert_eq!(mgr.credits(ch), Ok((7, 10)));
    let m = mgr.metrics(ch).unwrap();
    assert_eq!(m.frames_sent, 3);
    assert_eq!(m.bytes_sent, 52);
}

#[test]
fn payload_over_mtu_is_refused_and_sends_nothing() {
    let mut mgr = ChannelManager::new(1, 251);
    let ch = connected(&mut mgr, 100, 23, 10);
    assert_eq!(mgr.try_send(ch, &[0u8; 101]), Err(L2capError::SizeViolation));
    assert_eq!(mgr.credits(ch), Ok((10, 10)));
    assert!(matches!(mgr.begin_send(ch, &[0u8; 101]), Err(L2capError::SizeViolation)));
    assert_eq!(mgr.metrics(ch).unwrap().frames_sent, 0);
}

#[test]
fn try_send_without_enough_credits_is_busy() {
    let mut mgr = ChannelManager::new(1, 251);
    let ch = connected(&mut mgr, 100, 23, 0);
    assert_eq!(mgr.try_send(ch, &[1u8; 10]), Err(L2capError::Busy));
    assert_eq!(mgr.credits(ch), Ok((0, 10)));
    mgr.add_tx_credits(ch, 2).unwrap();
    assert_eq!(mgr.try_send(ch, &[1u8; 50]), Err(L2capError::Busy));
    assert_eq!(mgr.credits(ch), Ok((2, 10)));
}

#[test]
fn waiting_send_spends_one_credit_per_frame() {
    let mut mgr = ChannelManager::new(1, 251);
    let ch = connected(&mut mgr, 100, 23, 1);
    let mut out = mgr.begin_send(ch, &[3u8; 50]).unwrap();
    assert!(matches!(mgr.send_next(ch, &mut out), Ok(SendStep::Transmit(f)) if f.len() == 23));
    assert!(matches!(mgr.send_next(ch, &mut out), Ok(SendStep::NeedCredits)));
    mgr.add_tx_credits(ch, 5).unwrap();
    assert!(matches!(mgr.send_next(ch, &mut out), Ok(SendStep::Transmit(f)) if f.len() == 23));
    assert!(matches!(mgr.send_next(ch, &mut out), Ok(SendStep::Transmit(f)) if f.len() == 6));
    assert!(matches!(mgr.send_next(ch, &mut out), Ok(SendStep::Complete)));
    assert_eq!(mgr.credits(ch), Ok((3, 10)));
}

#[test]
fn disconnect_ends_a_waiting_send() {
    let mut mgr = ChannelManager::new(1, 251);
    let ch = connected(&mut mgr, 100, 23, 0);
    let mut out = mgr.begin_send(ch, &[3u8; 5]).unwrap();
    assert!(matches!(mgr.send_next(ch, &mut out), Ok(SendStep::NeedCredits)));
    mgr.disconnect(ch).unwrap();
    assert!(matches!(mgr.send_next(ch, &mut out), Err(L2capError::Disconnected)));
}

#[test]
fn full_table_refuses_create() {
    let mut mgr = ChannelManager::new(1, 251);
    let first = mgr.create(CONN, 0x80, &L2capChannelConfig::default()).unwrap();
    assert_eq!(mgr.state(first), Ok(ChannelState::Connecting));
    assert_eq!(mgr.create(CONN, 0x81, &L2capChannelConfig::default()), Err(L2capError::NoFreeChannel));
}

#[test]
fn defaults_come_from_pool_buffer_size() {
    let mut mgr = ChannelManager::new(1, 100);
    let ch = mgr.create(CONN, 0x80, &L2capChannelConfig::default()).unwrap();
    assert_eq!(mgr.sizes(ch), Ok((94, 96)));
    assert_eq!(mgr.credits(ch), Ok((0, 8)));
}

#[test]
fn peer_offer_is_negotiated_down() {
    let mut mgr = ChannelManager::new(1, 251);
    let ch = mgr.create(CONN, 0x80, &config(200, 100, 4)).unwrap();
    let resp = ConnectResponse::Accepted { remote_cid: 0x50, mtu: 120, mps: 150, credits: 9 };
    assert_eq!(mgr.on_connect_response(ch, resp), Ok(()));
    assert_eq!(mgr.state(ch), Ok(ChannelState::Connected));
    assert_eq!(mgr.sizes(ch), Ok((120, 100)));
    assert_eq!(mgr.credits(ch), Ok((9, 4)));
}

#[test]
fn rejection_and_timeout_free_the_slot() {
    let mut mgr = ChannelManager::new(1, 251);
    let ch = mgr.create(CONN, 0x80, &L2capChannelConfig::default()).unwrap();
    assert_eq!(mgr.on_connect_response(ch, ConnectResponse::Rejected), Err(L2capError::PeerRejected));
    assert_eq!(mgr.state(ch), Err(L2capError::InvalidChannel));
    let ch2 = mgr.create(CONN, 0x80, &L2capChannelConfig::default()).unwrap();
    assert_eq!(ch2.slot, ch.slot);
    assert_ne!(ch2.generation, ch.generation);
    assert_eq!(mgr.on_connect_response(ch2, ConnectResponse::TimedOut), Err(L2capError::Timeout));
    assert_eq!(mgr.allocate_free_slot(), Some(0));
}

#[test]
fn mps_too_small_for_header_is_refused() {
    let mut mgr = ChannelManager::new(1, 251);
    let ch = mgr.create(CONN, 0x80, &L2capChannelConfig::default()).unwrap();
    let resp = ConnectResponse::Accepted { remote_cid: 0x50, mtu: 120, mps: 1, credits: 9 };
    assert_eq!(mgr.on_connect_response(ch, resp), Err(L2capError::ProtocolViolation));
    assert_eq!(mgr.allocate_free_slot(), Some(0));
}

#[test]
fn accept_matches_listed_psm_only() {
    let mut mgr = ChannelManager::new(1, 251);
    let req = PeerRequest { psm: 0x99, remote_cid: 0x45, mtu: 60, mps: 30, credits: 3 };
    let cfg = config(100, 23, 5);
    assert_eq!(mgr.accept(CONN, &[0x80, 0x81], &req, &cfg), Ok(None));
    let ch = mgr.accept(CONN, &[0x80, 0x99], &req, &cfg).unwrap().unwrap();
    assert_eq!(mgr.state(ch), Ok(ChannelState::Connected));
    assert_eq!(mgr.psm(ch), Ok(0x99));
    assert_eq!(mgr.sizes(ch), Ok((60, 23)));
    assert_eq!(mgr.credits(ch), Ok((3, 5)));
    assert_eq!(mgr.find_channel(CONN, 0x40), Some(ch));
    assert_eq!(mgr.accept(CONN, &[0x99], &req, &cfg), Err(L2capError::NoFreeChannel));
}

#[test]
fn overrun_of_declared_length_disconnects() {
    let mut mgr = ChannelManager::new(1, 251);
    let ch = connected(&mut mgr, 100, 23, 5);
    let mut first = vec![10u8, 0];
    first.extend_from_slice(&[0u8; 8]);
    assert_eq!(mgr.on_frame(ch, &first), Ok(()));
    assert_eq!(mgr.on_frame(ch, &[0u8; 4]), Err(L2capError::ProtocolViolation));
    assert_eq!(mgr.state(ch), Ok(ChannelState::Disconnecting));
    assert_eq!(mgr.poll_receive(ch), Err(L2capError::Disconnected));
}

#[test]
fn frame_without_receive_credit_disconnects() {
    let mut mgr = ChannelManager::new(1, 251);
    let ch = mgr.create(CONN, 0x80, &config(100, 23, 1)).unwrap();
    let resp = ConnectResponse::Accepted { remote_cid: 0x41, mtu: 100, mps: 23, credits: 1 };
    mgr.on_connect_response(ch, resp).unwrap();
    assert_eq!(mgr.on_frame(ch, &[2, 0, 1, 2]), Ok(()));
    assert_eq!(mgr.on_frame(ch, &[2, 0, 1, 2]), Err(L2capError::ProtocolViolation));
    assert_eq!(mgr.state(ch), Ok(ChannelState::Disconnecting));
}

#[test]
fn received_sdus_come_out_in_order() {
    let mut mgr = ChannelManager::new(1, 251);
    let ch = connected(&mut mgr, 100, 23, 5);
    assert_eq!(mgr.poll_receive(ch), Ok(None));
    for f in l2cap::sar::segment(&[1u8; 30], 23) {
        mgr.on_frame(ch, &f).unwrap();
    }
    mgr.on_frame(ch, &[1, 0, 9]).unwrap();
    assert_eq!(mgr.poll_receive(ch), Ok(Some(vec![1u8; 30])));
    assert_eq!(mgr.poll_receive(ch), Ok(Some(vec![9u8])));
    assert_eq!(mgr.poll_receive(ch), Ok(None));
    let m = mgr.metrics(ch).unwrap();
    assert_eq!(m.frames_received, 3);
    assert_eq!(m.sdus_received, 2);
}

#[test]
fn disconnect_wakes_a_waiting_receive() {
    let mut mgr = ChannelManager::new(1, 251);
    let ch = connected(&mut mgr, 100, 23, 5);
    mgr.on_frame(ch, &[1, 0, 4]).unwrap();
    mgr.disconnect(ch).unwrap();
    assert_eq!(mgr.poll_receive(ch), Ok(Some(vec![4u8])));
    assert_eq!(mgr.poll_receive(ch), Err(L2capError::Disconnected));
}

#[test]
fn automatic_flow_tops_credits_up_at_low_water() {
    let mut mgr = ChannelManager::new(1, 251);
    let ch = connected(&mut mgr, 100, 23, 5);
    for _ in 0..7 {
        mgr.on_frame(ch, &[1, 0, 4]).unwrap();
    }
    assert_eq!(mgr.credit_grant(ch), Ok(0));
    mgr.on_frame(ch, &[1, 0, 4]).unwrap();
    assert_eq!(mgr.credits(ch), Ok((5, 2)));
    assert_eq!(mgr.credit_grant(ch), Ok(8));
    assert_eq!(mgr.credits(ch), Ok((5, 10)));
}

#[test]
fn explicit_flow_grants_nothing() {
    let mut mgr = ChannelManager::new(1, 251);
    let mut cfg = config(100, 23, 1);
    cfg.flow_policy = CreditFlowPolicy::Explicit;
    let ch = mgr.create(CONN, 0x80, &cfg).unwrap();
    let resp = ConnectResponse::Accepted { remote_cid: 0x41, mtu: 100, mps: 23, credits: 1 };
    mgr.on_connect_response(ch, resp).unwrap();
    mgr.on_frame(ch, &[1, 0, 4]).unwrap();
    assert_eq!(mgr.credit_grant(ch), Ok(0));
}

#[test]
fn credit_overflow_disconnects() {
    let mut mgr = ChannelManager::new(1, 251);
    let ch = connected(&mut mgr, 100, 23, 65000);
    assert_eq!(mgr.add_tx_credits(ch, 600), Err(L2capError::ProtocolViolation));
    assert_eq!(mgr.state(ch), Ok(ChannelState::Disconnecting));
}

#[test]
fn last_release_of_closing_channel_frees_its_slot() {
    let mut mgr = ChannelManager::new(1, 251);
    let ch = connected(&mut mgr, 100, 23, 5);
    mgr.inc_ref(ch).unwrap();
    mgr.disconnect(ch).unwrap();
    assert!(!mgr.dec_ref(ch));
    assert_eq!(mgr.state(ch), Ok(ChannelState::Disconnecting));
    assert_eq!(mgr.allocate_free_slot(), None);
    assert!(!mgr.dec_ref(ch));
    assert_eq!(mgr.state(ch), Err(L2capError::InvalidChannel));
    let again = mgr.create(CONN, 0x80, &L2capChannelConfig::default()).unwrap();
    assert_eq!(again.slot, ch.slot);
}

#[test]
fn release_of_open_channel_asks_for_disconnect() {
    let mut mgr = ChannelManager::new(1, 251);
    let ch = connected(&mut mgr, 100, 23, 5);
    assert!(mgr.dec_ref(ch));
    assert_eq!(mgr.is_live(ch), false);
    assert!(!mgr.dec_ref(ch));
}

#[test]
fn stale_index_is_refused() {
    let mut mgr = ChannelManager::new(1, 251);
    let ch = connected(&mut mgr, 100, 23, 5);
    mgr.dec_ref(ch);
    let _new = connected(&mut mgr, 100, 23, 5);
    assert_eq!(mgr.try_send(ch, &[1]), Err(L2capError::InvalidChannel));
    assert_eq!(mgr.psm(ch), Err(L2capError::InvalidChannel));
    assert_eq!(mgr.inc_ref(ch), Err(L2capError::InvalidChannel));
    assert_eq!(mgr.on_frame(ch, &[1, 0, 1]), Err(L2capError::InvalidChannel));
}

#[test]
fn send_on_connecting_channel_is_disconnected() {
    let mut mgr = ChannelManager::new(1, 251);
    let ch = mgr.create(CONN, 0x80, &L2capChannelConfig::default()).unwrap();
    assert_eq!(mgr.try_send(ch, &[1]), Err(L2capError::Disconnected));
    assert_eq!(mgr.on_frame(ch, &[1, 0, 1]), Err(L2capError::Disconnected));
}

#[test]
fn handles_split_merge_and_release() {
    let mut mgr = ChannelManager::new(1, 251);
    let chan = L2capChannel::create(&mut mgr, CONN, 0x80, &config(100, 23, 4)).unwrap();
    let resp = ConnectResponse::Accepted { remote_cid: 0x41, mtu: 100, mps: 23, credits: 4 };
    mgr.on_connect_response(chan.index(), resp).unwrap();
    assert_eq!(chan.psm(&mgr), Ok(0x80));
    let (mut w, mut r) = chan.split(&mut mgr).ok().unwrap();
    let frames = w.try_send(&mut mgr, &[7u8; 10]).unwrap();
    assert_eq!(frames.len(), 1);
    assert_eq!(r.metrics(&mgr).unwrap().frames_sent, 1);
    let seen = r.channel_ref(&mut mgr).unwrap();
    assert_eq!(seen.metrics(&mgr).unwrap().bytes_sent, 12);
    mgr.on_frame(r.index(), &frames[0]).unwrap();
    assert_eq!(r.receive_sdu(&mut mgr), Ok(Some(vec![7u8; 10])));
    let mut chan = L2capChannel::merge(w, r, &mut mgr).ok().unwrap();
    chan.disconnect(&mut mgr).unwrap();
    assert!(!seen.release(&mut mgr));
    assert!(!chan.release(&mut mgr));
    assert_eq!(mgr.allocate_free_slot(), Some(0));
}

#[test]
fn merge_of_different_channels_is_refused() {
    let mut mgr = ChannelManager::new(2, 251);
    let a = L2capChannel::create(&mut mgr, CONN, 0x80, &L2capChannelConfig::default()).unwrap();
    let b = L2capChannel::create(&mut mgr, CONN, 0x81, &L2capChannelConfig::default()).unwrap();
    let (wa, _ra) = a.split(&mut mgr).ok().unwrap();
    let (_wb, rb) = b.split(&mut mgr).ok().unwrap();
    let back = L2capChannel::merge(wa, rb, &mut mgr);
    assert!(back.is_err());
}

#[test]
fn accept_through_handle() {
    let mut mgr = ChannelManager::new(1, 251);
    let req = PeerRequest { psm: 0x25, remote_cid: 0x45, mtu: 60, mps: 30, credits: 3 };
    let chan = L2capChannel::accept(&mut mgr, CONN, &[0x25], &req, &L2capChannelConfig::default())
        .unwrap()
        .unwrap();
    assert_eq!(mgr.state(chan.index()), Ok(ChannelState::Connected));
}

#[test]
fn receive_copies_into_buffer_or_keeps_sdu() {
    let mut mgr = ChannelManager::new(1, 251);
    let ch = connected(&mut mgr, 100, 23, 5);
    mgr.on_frame(ch, &[4, 0, 1, 2, 3, 4]).unwrap();
    let mut small = [0u8; 3];
    assert_eq!(mgr.receive(ch, &mut small), Err(L2capError::BufferTooSmall));
    assert_eq!(small, [0u8; 3]);
    let mut buf = [9u8; 6];
    assert_eq!(mgr.receive(ch, &mut buf), Ok(Some(4)));
    assert_eq!(buf, [1, 2, 3, 4, 9, 9]);
    assert_eq!(mgr.receive(ch, &mut buf), Ok(None));
    mgr.disconnect(ch).unwrap();
    assert_eq!(mgr.receive(ch, &mut buf), Err(L2capError::Disconnected));
}

#[test]
fn reader_receive_through_handle() {
    let mut mgr = ChannelManager::new(1, 251);
    let chan = L2capChannel::create(&mut mgr, CONN, 0x80, &config(100, 23, 4)).unwrap();
    let resp = ConnectResponse::Accepted { remote_cid: 0x41, mtu: 100, mps: 23, credits: 4 };
    mgr.on_connect_response(chan.index(), resp).unwrap();
    let (_w, mut r) = chan.split(&mut mgr).ok().unwrap();
    mgr.on_frame(r.index(), &[2, 0, 8, 9]).unwrap();
    let mut buf = [0u8; 10];
    assert_eq!(r.receive(&mut mgr, &mut buf), Ok(Some(2)));
    assert_eq!(&buf[..2], &[8, 9]);
}

#[test]
fn receive_while_connecting_is_disconnected() {
    let mut mgr = ChannelManager::new(1, 251);
    let ch = mgr.create(CONN, 0x80, &L2capChannelConfig::default()).unwrap();
    assert_eq!(mgr.poll_receive(ch), Err(L2capError::Disconnected));
    let mut buf = [0u8; 4];
    assert_eq!(mgr.receive(ch, &mut buf), Err(L2capError::Disconnected));
}

#[test]
fn waiting_send_counts_the_same_bytes_as_try_send() {
    let mut mgr = ChannelManager::new(1, 251);
    let ch = connected(&mut mgr, 100, 23, 10);
    let mut out = mgr.begin_send(ch, &[3u8; 50]).unwrap();
    while !matches!(mgr.send_next(ch, &mut out), Ok(SendStep::Complete)) {}
    assert_eq!(mgr.metrics(ch).unwrap().bytes_sent, 52);
    assert_eq!(mgr.credits(ch), Ok((7, 10)));
}

#[test]
fn split_counts_one_more_reference() {
    let mut mgr = ChannelManager::new(1, 251);
    let chan = L2capChannel::create(&mut mgr, CONN, 0x80, &L2capChannelConfig::default()).unwrap();
    let index = chan.index();
    let (w, r) = chan.split(&mut mgr).ok().unwrap();
    assert!(!w.release(&mut mgr));
    assert_eq!(mgr.state(index), Ok(ChannelState::Connecting));
    assert!(r.release(&mut mgr));
    assert_eq!(mgr.state(index), Err(L2capError::InvalidChannel));
}
