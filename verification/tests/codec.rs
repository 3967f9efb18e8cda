use revpfw3::packet::{body_len, decode_u128_be, decode_u32_be, decode_u64_be, parse_stream, push_u128_be,
    push_u32_be, push_u64_be, Direction, Packet, PacketType};

#[test]
fn read_schedule_matches_the_frame_layouts() {
    for dir in [Direction::ToClient, Direction::ToServer] {
        assert_eq!(body_len(PacketType::CloseClient, dir), Some(8));
        assert_eq!(body_len(PacketType::KeepAlive, dir), Some(0));
        assert_eq!(body_len(PacketType::ClientExceededBuffer, dir), Some(24));
        // A stray echo in the main loop is answered with a resync,
        // not read.
        assert_eq!(body_len(PacketType::ResyncEcho, dir), None);
    }
    // Data frames and channel announcements are one-directional.
    assert_eq!(body_len(PacketType::ClientData, Direction::ToClient), Some(12));
    assert_eq!(body_len(PacketType::ClientData, Direction::ToServer), None);
    assert_eq!(body_len(PacketType::ServerData, Direction::ToServer), Some(12));
    assert_eq!(body_len(PacketType::ServerData, Direction::ToClient), None);
    assert_eq!(body_len(PacketType::NewClient, Direction::ToClient), Some(0));
    assert_eq!(body_len(PacketType::NewClient, Direction::ToServer), None);
    // Only the server-sent resync carries its counter.
    assert_eq!(body_len(PacketType::Resync, Direction::ToClient), Some(8));
    assert_eq!(body_len(PacketType::Resync, Direction::ToServer), Some(0));
}

#[test]
fn whole_stream_parser_recovers_every_frame() {
    let frames: Vec<Packet> = vec![
        Packet::NewClient,
        Packet::ClientData { id: 0, data: vec![1, 2, 3] },
        Packet::KeepAlive,
        Packet::ClientExceededBuffer { id: 0, micros: 99 },
        Packet::CloseClient { id: 0 },
        Packet::ResyncEcho { max_id: 1 },
    ];
    let mut stream: Vec<u8> = Vec::new();
    for f in &frames {
        stream.extend_from_slice(&f.encode(Direction::ToClient));
    }
    let parsed = parse_stream(Direction::ToClient, &stream).expect("well-formed stream");
    assert_eq!(parsed.len(), frames.len());
    for (p, f) in parsed.iter().zip(frames.iter()) {
        assert_eq!(p.encode(Direction::ToClient), f.encode(Direction::ToClient));
    }
    // One stray byte anywhere breaks the whole-stream parse.
    stream.push(0xff);
    assert!(parse_stream(Direction::ToClient, &stream).is_none());
    assert!(parse_stream(Direction::ToClient, &[0x08]).is_none());
    assert!(parse_stream(Direction::ToClient, &[]).map(|v| v.len()) == Some(0));
}

#[test]
fn ordinals_follow_declaration_order() {
    assert_eq!(PacketType::NewClient.ordinal(), 0);
    assert_eq!(PacketType::CloseClient.ordinal(), 1);
    assert_eq!(PacketType::KeepAlive.ordinal(), 2);
    assert_eq!(PacketType::ClientData.ordinal(), 3);
    assert_eq!(PacketType::ServerData.ordinal(), 4);
    assert_eq!(PacketType::ClientExceededBuffer.ordinal(), 5);
    assert_eq!(PacketType::Resync.ordinal(), 6);
    assert_eq!(PacketType::ResyncEcho.ordinal(), 7);
}

#[test]
fn from_ordinal_inverts_ordinal_and_rejects_garbage() {
    for b in 0u8..8 {
        let k = PacketType::from_ordinal(b).unwrap();
        assert_eq!(k.ordinal(), b);
    }
    assert!(PacketType::from_ordinal(8).is_none());
    assert!(PacketType::from_ordinal(0xff).is_none());
}

#[test]
fn big_endian_integers_round_trip() {
    let mut out: Vec<u8> = Vec::new();
    push_u32_be(&mut out, 0x0102_0304);
    assert_eq!(out, vec![1, 2, 3, 4]);
    assert_eq!(decode_u32_be(&out), 0x0102_0304);

    let mut out: Vec<u8> = Vec::new();
    push_u64_be(&mut out, 0x0102_0304_0506_0708);
    assert_eq!(out, vec![1, 2, 3, 4, 5, 6, 7, 8]);
    assert_eq!(decode_u64_be(&out), 0x0102_0304_0506_0708);

    let mut out: Vec<u8> = Vec::new();
    push_u128_be(&mut out, 0x0102_0304_0506_0708_090a_0b0c_0d0e_0f10);
    assert_eq!(out, vec![1, 2, 3, 4, 5, 6, 7, 8, 9, 10, 11, 12, 13, 14, 15, 16]);
    assert_eq!(decode_u128_be(&out), 0x0102_0304_0506_0708_090a_0b0c_0d0e_0f10);

    let mut out: Vec<u8> = Vec::new();
    push_u64_be(&mut out, u64::MAX);
    assert_eq!(out, vec![0xff; 8]);
    assert_eq!(decode_u64_be(&out), u64::MAX);
}

#[test]
fn client_data_frame_layout_is_exact() {
    let p = Packet::ClientData { id: 7, data: vec![0xaa, 0xbb, 0xcc] };
    let bytes = p.encode(Direction::ToClient);
    assert_eq!(
        bytes,
        vec![3, 0, 0, 0, 0, 0, 0, 0, 7, 0, 0, 0, 3, 0xaa, 0xbb, 0xcc]
    );
}

#[test]
fn penalty_frame_layout_is_exact() {
    let p = Packet::ClientExceededBuffer { id: 1, micros: 2 };
    let bytes = p.encode(Direction::ToServer);
    let mut expected = vec![5u8, 0, 0, 0, 0, 0, 0, 0, 1];
    expected.extend_from_slice(&[0u8; 15]);
    expected.push(2);
    assert_eq!(bytes, expected);
}

#[test]
fn resync_payload_depends_on_direction() {
    let toward_client = Packet::Resync { max_id: Some(9) };
    assert_eq!(
        toward_client.encode(Direction::ToClient),
        vec![6, 0, 0, 0, 0, 0, 0, 0, 9]
    );
    let toward_server = Packet::Resync { max_id: None };
    assert_eq!(toward_server.encode(Direction::ToServer), vec![6]);
}

#[test]
fn every_kind_round_trips_through_parse() {
    let cases: Vec<(Packet, Direction)> = vec![
        (Packet::NewClient, Direction::ToClient),
        (Packet::CloseClient { id: 42 }, Direction::ToClient),
        (Packet::CloseClient { id: 42 }, Direction::ToServer),
        (Packet::KeepAlive, Direction::ToClient),
        (Packet::KeepAlive, Direction::ToServer),
        (Packet::ClientData { id: 3, data: vec![1, 2, 3, 4] }, Direction::ToClient),
        (Packet::ServerData { id: 4, data: vec![] }, Direction::ToServer),
        (Packet::ClientExceededBuffer { id: 5, micros: 123_456_789 }, Direction::ToServer),
        (Packet::Resync { max_id: Some(10) }, Direction::ToClient),
        (Packet::Resync { max_id: None }, Direction::ToServer),
        (Packet::ResyncEcho { max_id: 11 }, Direction::ToClient),
        (Packet::ResyncEcho { max_id: 11 }, Direction::ToServer),
    ];
    for (p, dir) in cases {
        let bytes = p.encode(dir);
        let (q, n) = Packet::parse(dir, &bytes).expect("frame must parse");
        assert_eq!(n, bytes.len());
        assert_eq!(q.encode(dir), bytes);
    }
}

#[test]
fn direction_wrong_data_frame_does_not_parse() {
    let p = Packet::ClientData { id: 3, data: vec![1] };
    let bytes = p.encode(Direction::ToClient);
    assert!(Packet::parse(Direction::ToServer, &bytes).is_none());

    let p = Packet::ServerData { id: 3, data: vec![1] };
    let bytes = p.encode(Direction::ToServer);
    assert!(Packet::parse(Direction::ToClient, &bytes).is_none());
}

#[test]
fn truncated_frames_do_not_parse() {
    let p = Packet::ClientData { id: 3, data: vec![1, 2, 3] };
    let bytes = p.encode(Direction::ToClient);
    for cut in 0..bytes.len() {
        assert!(Packet::parse(Direction::ToClient, &bytes[..cut]).is_none());
    }
    assert!(Packet::parse(Direction::ToClient, &[]).is_none());
    assert!(Packet::parse(Direction::ToClient, &[0xff, 0, 0]).is_none());
}

#[test]
fn interleaved_stream_parses_back_frame_by_frame() {
    let frames: Vec<Packet> = vec![
        Packet::NewClient,
        Packet::ClientData { id: 0, data: vec![b'h', b'e'] },
        Packet::KeepAlive,
        Packet::ClientData { id: 1, data: vec![b'x'] },
        Packet::ClientData { id: 0, data: vec![b'l', b'l', b'o'] },
        Packet::CloseClient { id: 1 },
    ];
    let mut stream: Vec<u8> = Vec::new();
    for f in &frames {
        stream.extend_from_slice(&f.encode(Direction::ToClient));
    }
    let mut at = 0usize;
    let mut seen = 0usize;
    let mut chan0: Vec<u8> = Vec::new();
    while at < stream.len() {
        let (p, n) = Packet::parse(Direction::ToClient, &stream[at..]).expect("aligned parse");
        if let Packet::ClientData { id: 0, data } = &p {
            chan0.extend_from_slice(data);
        }
        at += n;
        seen += 1;
    }
    assert_eq!(seen, frames.len());
    assert_eq!(chan0, b"hello");
}
