use l2cap::error::L2capError;
use l2cap::sar::{segment, Reassembler};

fn bytes(n: usize) -> Vec<u8> {
    (0..n).map(|i| (i % 251) as u8).collect()
}

fn reassemble(frames: &[Vec<u8>], mps: u16, mtu: u16) -> Vec<Vec<u8>> {
    let mut r = Reassembler::new();
    let mut out = Vec::new();
    for (k, f) in frames.iter().enumerate() {
        match r.push(f, mps, mtu).unwrap() {
            Some(sdu) => {
                assert_eq!(k + 1, frames.len());
                out.push(sdu);
            }
            None => assert!(k + 1 < frames.len()),
        }
    }
    assert!(!r.in_progress());
    out
}

#[test]
fn fifty_bytes_over_mps_23_take_three_frames() {
    let data = bytes(50);
    let frames = segment(&data, 23);
    assert_eq!(frames.len(), 3);
    assert_eq!(frames[0].len(), 23);
    assert_eq!(&frames[0][..2], &[50, 0]);
    assert_eq!(&frames[0][2..], &data[..21]);
    assert_eq!(frames[1].len(), 23);
    assert_eq!(frames[2].len(), 6);
    let joined: Vec<u8> = frames.concat();
    assert_eq!(&joined[2..], &data[..]);
}

#[test]
fn frame_count_is_ceiling_of_length_plus_header() {
    for len in [0usize, 1, 20, 21, 22, 44, 45, 46, 100, 300] {
        for mps in [2u16, 3, 23, 64] {
            let frames = segment(&bytes(len), mps);
            assert_eq!(frames.len(), (len + 2 + mps as usize - 1) / mps as usize);
            assert!(frames.iter().all(|f| f.len() <= mps as usize));
        }
    }
}

#[test]
fn empty_sdu_is_one_header_frame() {
    let frames = segment(&[], 23);
    assert_eq!(frames, vec![vec![0u8, 0]]);
    assert_eq!(reassemble(&frames, 23, 100), vec![Vec::<u8>::new()]);
}

#[test]
fn segment_then_reassemble_round_trips() {
    for len in [0usize, 1, 21, 22, 50, 100, 257] {
        for mps in [2u16, 5, 23, 300] {
            let data = bytes(len);
            let frames = segment(&data, mps);
            assert_eq!(reassemble(&frames, mps, 300), vec![data]);
        }
    }
}

#[test]
fn declared_length_overrun_is_a_violation() {
    let mut r = Reassembler::new();
    let mut first = vec![10u8, 0];
    first.extend_from_slice(&[1, 2, 3, 4, 5, 6, 7, 8]);
    assert_eq!(r.push(&first, 23, 100), Ok(None));
    assert!(r.in_progress());
    assert_eq!(r.push(&[9, 10, 11, 12], 23, 100), Err(L2capError::ProtocolViolation));
    assert!(!r.in_progress());
}

#[test]
fn declared_length_over_mtu_is_a_violation() {
    let mut r = Reassembler::new();
    assert_eq!(r.push(&[101, 0, 1], 23, 100), Err(L2capError::ProtocolViolation));
}

#[test]
fn frame_over_mps_or_without_header_is_a_violation() {
    let mut r = Reassembler::new();
    assert_eq!(r.push(&[3, 0, 1, 2, 3], 4, 100), Err(L2capError::ProtocolViolation));
    assert_eq!(r.push(&[3], 4, 100), Err(L2capError::ProtocolViolation));
}

#[test]
fn header_decodes_little_endian() {
    let data = bytes(300);
    let frames = segment(&data, 400);
    assert_eq!(&frames[0][..2], &[44, 1]);
}
