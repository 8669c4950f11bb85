use shbt_cf::ring::{next_power_of_two, region_len, SpscRing, RING_MAGIC};
use shbt_cf::telemetry::{Channel, Frame};

#[test]
fn ring_roundtrip_and_drops() {
    let mut ring = SpscRing::heap(8);
    let (p, c) = ring.split();
    for i in 0..8u64 {
        p.send(
            &mut ring,
            Frame::scalar(Channel::ThermocoupleN, i, i * 100, (300.0 + i as f64).to_bits()),
        );
    }
    assert!(!p.push(&mut ring, Frame::scalar(Channel::ThermocoupleN, 8, 800, 0.0f64.to_bits())));
    assert_eq!(p.dropped(&ring), 1);
    for i in 0..8u64 {
        let f = c.pop(&mut ring).unwrap();
        assert_eq!(f.seq, i);
    }
    assert!(c.pop(&mut ring).is_none());
}

#[test]
fn ring_wraps_counters() {
    let mut ring = SpscRing::heap(4);
    let (p, c) = ring.split();
    for i in 0..100u64 {
        while !p.try_push(&mut ring, Frame::scalar(Channel::FbgStrain, i, i, (i as f64).to_bits())) {
            while c.pop(&mut ring).is_none() {}
        }
        let f = c.pop(&mut ring).unwrap();
        assert_eq!(f.seq, i);
    }
}

#[test]
fn region_geometry_and_header() {
    assert_eq!(region_len(16), 64 + 16 * 64);
    let ring = SpscRing::heap(16);
    let region = ring.region();
    assert_eq!(region.capacity(), 16);
    assert_eq!(region.len(), 64 + 16 * 64);
    assert!(!region.is_empty());
    let h = region.header();
    assert_eq!(h.magic, RING_MAGIC);
    assert_eq!((h.head, h.tail, h.dropped), (0, 0, 0));
}

#[test]
fn full_ring_keeps_unread_frames_and_counts_drops() {
    let mut ring = SpscRing::heap(2);
    let (p, c) = ring.split();
    assert!(p.try_push(&mut ring, Frame::scalar(Channel::Other, 1, 0, 0)));
    assert!(p.try_push(&mut ring, Frame::scalar(Channel::Other, 2, 0, 0)));
    assert!(!p.try_push(&mut ring, Frame::scalar(Channel::Other, 3, 0, 0)));
    assert_eq!(p.dropped(&ring), 0);
    assert!(!p.push(&mut ring, Frame::scalar(Channel::Other, 4, 0, 0)));
    assert!(!p.push(&mut ring, Frame::scalar(Channel::Other, 5, 0, 0)));
    assert_eq!(c.dropped(&ring), 2);
    assert_eq!(p.pending(&ring), 2);
    let all = c.drain(&mut ring);
    assert_eq!(all.iter().map(|f| f.seq).collect::<Vec<_>>(), vec![1, 2]);
    assert_eq!(p.pending(&ring), 0);
}

#[test]
fn powers_of_two_for_requested_capacities() {
    assert_eq!(next_power_of_two(0), 1);
    assert_eq!(next_power_of_two(1), 1);
    assert_eq!(next_power_of_two(5), 8);
    assert_eq!(next_power_of_two(4096), 4096);
    assert_eq!(next_power_of_two(4097), 8192);
}

#[test]
fn frames_from_lanes() {
    let f = Frame::from_lanes(2, 9, 77, &[1, 2, 3, 4, 5, 6, 7]);
    assert_eq!(f.channel, Channel::FbgStrain);
    assert_eq!(f.lanes, 5);
    assert_eq!(f.values, [1, 2, 3, 4, 5]);
    let g = Frame::from_lanes(200, 0, 0, &[42]);
    assert_eq!(g.channel, Channel::Other);
    assert_eq!(g.lanes, 1);
    assert_eq!(g.values, [42, 0, 0, 0, 0]);
    assert_eq!(Channel::CcdSpectrometer.tag(), 3);
    assert_eq!(Channel::from_tag(Channel::ThermocoupleN.tag()), Channel::ThermocoupleN);
    assert_eq!(Frame::zero().channel, Channel::Other);
}
