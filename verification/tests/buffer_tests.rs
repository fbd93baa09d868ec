use sushi::buffer::{PacketBuffer, ENCAPSULATION_OVERHEAD, TUN_DEVICE_MTU, TUN_MTU};

#[test]
fn buffer_starts_zeroed_at_full_capacity() {
    let buf = PacketBuffer::new();
    assert_eq!(buf.len(), 1504);
    assert_eq!(buf.len(), TUN_MTU);
    for i in [0usize, 1, 700, 1503] {
        assert_eq!(buf.byte_at(i), 0);
    }
}

#[test]
fn device_mtu_offsets_encapsulation_overhead() {
    assert_eq!(TUN_DEVICE_MTU, 1472);
    assert_eq!(ENCAPSULATION_OVERHEAD, 28);
    assert_eq!(TUN_DEVICE_MTU + ENCAPSULATION_OVERHEAD, 1500);
}

#[test]
fn short_frame_fills_front_and_keeps_residue() {
    let mut buf = PacketBuffer::new();
    let n = buf.fill(&vec![1u8, 2, 3]);
    assert_eq!(n, 3);
    assert_eq!(buf.byte_at(0), 1);
    assert_eq!(buf.byte_at(1), 2);
    assert_eq!(buf.byte_at(2), 3);
    assert_eq!(buf.byte_at(3), 0);

    // The buffer is reused: a shorter read leaves the previous bytes behind
    // it in place, deterministically.
    let n = buf.fill(&vec![9u8]);
    assert_eq!(n, 1);
    assert_eq!(buf.byte_at(0), 9);
    assert_eq!(buf.byte_at(1), 2);
    assert_eq!(buf.byte_at(2), 3);
    assert_eq!(buf.byte_at(3), 0);
}

#[test]
fn frame_at_device_mtu_is_not_truncated() {
    let mut buf = PacketBuffer::new();
    let frame = vec![7u8; TUN_DEVICE_MTU];
    let n = buf.fill(&frame);
    assert_eq!(n, TUN_DEVICE_MTU);
    assert_eq!(buf.byte_at(0), 7);
    assert_eq!(buf.byte_at(TUN_DEVICE_MTU - 1), 7);
    assert_eq!(buf.byte_at(TUN_DEVICE_MTU), 0);
}

#[test]
fn frame_at_buffer_capacity_is_not_truncated() {
    let mut buf = PacketBuffer::new();
    let frame = vec![8u8; TUN_MTU];
    let n = buf.fill(&frame);
    assert_eq!(n, TUN_MTU);
    assert_eq!(buf.byte_at(0), 8);
    assert_eq!(buf.byte_at(TUN_MTU - 1), 8);
}

#[test]
fn oversized_frame_is_truncated_to_capacity() {
    let mut buf = PacketBuffer::new();
    let mut frame = vec![0u8; 1600];
    for (i, b) in frame.iter_mut().enumerate() {
        *b = (i % 251) as u8;
    }
    let n = buf.fill(&frame);
    assert_eq!(n, TUN_MTU);
    assert_eq!(buf.len(), TUN_MTU);
    for i in [0usize, 1, 1000, 1503] {
        assert_eq!(buf.byte_at(i), frame[i]);
    }
}

#[test]
fn to_vec_copies_the_whole_buffer() {
    let mut buf = PacketBuffer::new();
    buf.fill(&vec![4u8, 5, 6]);
    let copy = buf.to_vec();
    assert_eq!(copy.len(), TUN_MTU);
    assert_eq!(&copy[0..3], &[4, 5, 6]);
    assert!(copy[3..].iter().all(|&b| b == 0));
}
