use robocup::link::{
    odometry_reply, parse_control_packet, read_i32_be, write_i32_be, ControlLink,
    ControlPacket, LinkEvent,
};

#[test]
fn big_endian_round_trip() {
    for x in [0, 1, -1, 256, i32::MIN, i32::MAX, 123_456_789, -98_765] {
        let b = write_i32_be(x);
        assert_eq!(b, x.to_be_bytes());
        assert_eq!(read_i32_be(b[0], b[1], b[2], b[3]), x);
    }
}

#[test]
fn control_packet_fields() {
    let mut bytes = Vec::new();
    for v in [100i32, -200, 90, 55] {
        bytes.extend_from_slice(&v.to_be_bytes());
    }
    assert_eq!(
        parse_control_packet(&bytes),
        ControlPacket { x: 100, y: -200, w: 90, dribbler: 55 }
    );
}

#[test]
fn odometry_reply_is_cobs_encoded_and_padded() {
    let r = odometry_reply([1, -1, 256]);
    let mut expected = vec![0x01, 0x01, 0x01, 0x06, 0x01, 0xff, 0xff, 0xff, 0xff, 0x01, 0x02, 0x01, 0x01];
    expected.resize(62, 0);
    assert_eq!(r, expected);
    // The encoded part decodes back to the payload.
    let mut framed = r[..13].to_vec();
    framed.push(0);
    let decoded = cobs::decode_vec(&framed).unwrap();
    assert_eq!(decoded, [0, 0, 0, 1, 0xff, 0xff, 0xff, 0xff, 0, 0, 1, 0]);
}

#[test]
fn link_receives_commands() {
    let mut payload = Vec::new();
    for v in [7i32, -8, 9, -10] {
        payload.extend_from_slice(&v.to_be_bytes());
    }
    let mut wire = vec![0u8];
    wire.extend(cobs::encode_vec(&payload));
    wire.push(0);
    let mut link = ControlLink::new();
    let mut events = Vec::new();
    for b in wire {
        events.push(link.receive(b));
    }
    let last = events.pop().unwrap();
    assert_eq!(last, LinkEvent::Command(ControlPacket { x: 7, y: -8, w: 9, dribbler: -10 }));
    assert!(events.iter().all(|e| *e == LinkEvent::Nothing));
}

#[test]
fn link_reports_wrong_sizes_and_bad_frames() {
    let mut link = ControlLink::new();
    let mut wire = cobs::encode_vec(&[1, 2, 3]);
    wire.push(0);
    let mut last = LinkEvent::Nothing;
    for b in wire {
        last = link.receive(b);
    }
    assert_eq!(last, LinkEvent::InvalidSize(3));
    // A frame cut short by a zero byte.
    assert_eq!(link.receive(5), LinkEvent::Nothing);
    assert_eq!(link.receive(0), LinkEvent::DecodeFailed);
    // The link recovers for the next frame.
    let mut payload = Vec::new();
    for v in [1i32, 2, 3, 4] {
        payload.extend_from_slice(&v.to_be_bytes());
    }
    let mut wire = cobs::encode_vec(&payload);
    wire.push(0);
    for b in wire {
        last = link.receive(b);
    }
    assert_eq!(last, LinkEvent::Command(ControlPacket { x: 1, y: 2, w: 3, dribbler: 4 }));
}

#[test]
fn commands_complete_only_on_the_terminating_zero() {
    let mut payload = Vec::new();
    for v in [0i32, 0, 0, 0] {
        payload.extend_from_slice(&v.to_be_bytes());
    }
    let encoded = cobs::encode_vec(&payload);
    let mut link = ControlLink::new();
    for b in &encoded {
        assert_ne!(*b, 0);
        assert_eq!(link.receive(*b), LinkEvent::Nothing);
    }
    assert_eq!(link.receive(0), LinkEvent::Command(ControlPacket { x: 0, y: 0, w: 0, dribbler: 0 }));
    // Zero bytes between frames are ignored.
    assert_eq!(link.receive(0), LinkEvent::Nothing);
}

#[test]
fn oversized_frames_are_reported_by_size() {
    let payload = vec![7u8; 20];
    let mut wire = cobs::encode_vec(&payload);
    wire.push(0);
    let mut link = ControlLink::new();
    let mut last = LinkEvent::Nothing;
    for b in wire {
        last = link.receive(b);
    }
    assert_eq!(last, LinkEvent::InvalidSize(20));
}

#[test]
fn frames_span_packets() {
    let mut payload = Vec::new();
    for v in [-3i32, 4, -5, 6] {
        payload.extend_from_slice(&v.to_be_bytes());
    }
    let mut wire = cobs::encode_vec(&payload);
    wire.push(0);
    let (first, second) = wire.split_at(7);
    let mut link = ControlLink::new();
    let events = link.receive_packet(first);
    assert_eq!(events.len(), 7);
    assert!(events.iter().all(|e| *e == LinkEvent::Nothing));
    let events = link.receive_packet(second);
    assert_eq!(events.len(), second.len());
    assert_eq!(
        events.last(),
        Some(&LinkEvent::Command(ControlPacket { x: -3, y: 4, w: -5, dribbler: 6 }))
    );
    assert!(events[..events.len() - 1].iter().all(|e| *e == LinkEvent::Nothing));
}

#[test]
fn many_payloads_round_trip_through_a_fresh_link() {
    for seed in 0u8..=255 {
        let payload: Vec<u8> = (0..16u8).map(|i| seed.wrapping_mul(31).wrapping_add(i.wrapping_mul(seed | 1)) & if i % 3 == 0 { 0 } else { 0xff }).collect();
        let mut wire = cobs::encode_vec(&payload);
        wire.push(0);
        let mut link = ControlLink::new();
        let events = link.receive_packet(&wire);
        assert_eq!(*events.last().unwrap(), LinkEvent::Command(parse_control_packet(&payload)));
        assert!(events[..events.len() - 1].iter().all(|e| *e == LinkEvent::Nothing));
    }
}
