use revpfw3::control::{poll_verdict, violation_packet, Action, LoopState, PollVerdict, Role,
    KEEP_ALIVE_DEAD_MICROS, KEEP_ALIVE_SEND_MICROS};
use revpfw3::packet::{Direction, Packet, PacketType};
use revpfw3::IoErrorKind;

#[test]
fn channel_polls_forward_remove_or_rest() {
    assert_eq!(poll_verdict(Ok(Some(0))), PollVerdict::Remove);
    assert_eq!(poll_verdict(Ok(Some(17))), PollVerdict::Forward(17));
    assert_eq!(poll_verdict(Ok(None)), PollVerdict::Nothing);
    assert_eq!(
        poll_verdict(Err(IoErrorKind::ConnectionAborted)),
        PollVerdict::Remove
    );
}

#[test]
fn channel_table_allocates_monotonic_unique_ids() {
    let mut s = LoopState::new(Role::Server, 0);
    assert_eq!(s.allocate_channel(), 0);
    assert_eq!(s.allocate_channel(), 1);
    assert_eq!(s.allocate_channel(), 2);
    assert_eq!(s.channel_count(), 3);
    assert!(s.has_channel(1));
    assert!(!s.has_channel(3));
    assert!(s.remove_channel(1));
    assert!(!s.has_channel(1));
    assert!(!s.remove_channel(1));
    // Ids are never reused: the counter keeps climbing.
    assert_eq!(s.allocate_channel(), 3);
}

#[test]
fn keep_alive_refreshes_the_stamp_and_only_the_client_echoes() {
    let mut server = LoopState::new(Role::Server, 0);
    let acts = server.handle_packet(Packet::KeepAlive, 42);
    assert!(acts.is_empty());
    assert_eq!(server.last_keep_alive_recv, 42);

    let mut client = LoopState::new(Role::Client, 0);
    let acts = client.handle_packet(Packet::KeepAlive, 43);
    assert_eq!(acts.len(), 1);
    assert!(matches!(acts[0], Action::SendKeepAlive));
    assert_eq!(client.last_keep_alive_recv, 43);
}

#[test]
fn new_client_opens_a_channel_at_the_client_and_resyncs_at_the_server() {
    let mut client = LoopState::new(Role::Client, 0);
    let acts = client.handle_packet(Packet::NewClient, 0);
    assert_eq!(acts.len(), 1);
    assert!(matches!(acts[0], Action::OpenChannel(0)));
    assert!(client.has_channel(0));

    let mut server = LoopState::new(Role::Server, 0);
    let acts = server.handle_packet(Packet::NewClient, 0);
    assert_eq!(acts.len(), 1);
    assert!(matches!(acts[0], Action::StartResync));
}

#[test]
fn close_client_drops_the_channel_once() {
    let mut s = LoopState::new(Role::Server, 0);
    s.allocate_channel();
    s.allocate_channel();
    let acts = s.handle_packet(Packet::CloseClient { id: 0 }, 0);
    assert_eq!(acts.len(), 1);
    assert!(matches!(acts[0], Action::CloseChannel(0)));
    assert!(!s.has_channel(0));
    let acts = s.handle_packet(Packet::CloseClient { id: 0 }, 0);
    assert!(acts.is_empty());
}

#[test]
fn data_for_an_unknown_channel_is_dropped_silently() {
    let mut s = LoopState::new(Role::Server, 0);
    let acts = s.handle_packet(Packet::ServerData { id: 9, data: vec![1, 2] }, 0);
    assert!(acts.is_empty());
}

#[test]
fn data_for_a_live_channel_is_delivered_as_is() {
    let mut s = LoopState::new(Role::Server, 0);
    let id = s.allocate_channel();
    let acts = s.handle_packet(Packet::ServerData { id, data: vec![1, 2, 3] }, 0);
    assert_eq!(acts.len(), 1);
    match &acts[0] {
        Action::DeliverData(i, d) => {
            assert_eq!(*i, id);
            assert_eq!(d, &vec![1, 2, 3]);
        },
        other => panic!("unexpected action {:?}", other),
    }
}

#[test]
fn direction_wrong_data_triggers_a_resync() {
    let mut server = LoopState::new(Role::Server, 0);
    let acts = server.handle_packet(Packet::ClientData { id: 0, data: vec![] }, 0);
    assert_eq!(acts.len(), 1);
    assert!(matches!(acts[0], Action::StartResync));

    let mut client = LoopState::new(Role::Client, 0);
    let acts = client.handle_packet(Packet::ServerData { id: 0, data: vec![] }, 0);
    assert_eq!(acts.len(), 1);
    assert!(matches!(acts[0], Action::StartResync));
}

#[test]
fn a_sole_tenant_is_never_punished() {
    let mut s = LoopState::new(Role::Client, 0);
    s.handle_packet(Packet::NewClient, 0);
    let acts = s.handle_packet(Packet::ClientExceededBuffer { id: 0, micros: 500 }, 0);
    assert!(acts.is_empty());
    // With a second channel the same message punishes.
    s.handle_packet(Packet::NewClient, 0);
    let acts = s.handle_packet(Packet::ClientExceededBuffer { id: 0, micros: 500 }, 0);
    assert_eq!(acts.len(), 1);
    assert!(matches!(acts[0], Action::PunishChannel(0, 500)));
}

#[test]
fn penalty_for_an_unknown_channel_does_nothing() {
    let mut s = LoopState::new(Role::Server, 0);
    s.allocate_channel();
    s.allocate_channel();
    let acts = s.handle_packet(Packet::ClientExceededBuffer { id: 7, micros: 500 }, 0);
    assert!(acts.is_empty());
}

#[test]
fn resync_snaps_the_counter_and_keeps_the_channel_table() {
    let mut client = LoopState::new(Role::Client, 0);
    client.handle_packet(Packet::NewClient, 0);
    client.handle_packet(Packet::NewClient, 0);
    let acts = client.handle_packet(Packet::Resync { max_id: Some(10) }, 0);
    assert_eq!(acts.len(), 1);
    assert!(matches!(acts[0], Action::PauseThenResync));
    assert_eq!(client.next_id, 10);
    assert!(client.has_channel(0));
    assert!(client.has_channel(1));
}

#[test]
fn back_to_back_resyncs_converge_after_the_first() {
    let mut server = LoopState::new(Role::Server, 0);
    server.allocate_channel();
    let before_channels = server.channel_count();

    let acts = server.handle_packet(Packet::Resync { max_id: Some(5) }, 0);
    assert!(matches!(acts[0], Action::RespondResync));
    let id_after_first = server.next_id;
    assert_eq!(id_after_first, 5);

    // The second identical resync changes nothing further.
    let acts = server.handle_packet(Packet::Resync { max_id: Some(5) }, 0);
    assert!(matches!(acts[0], Action::RespondResync));
    assert_eq!(server.next_id, id_after_first);
    assert_eq!(server.channel_count(), before_channels);
    assert!(server.has_channel(0));
}

#[test]
fn a_resync_never_moves_the_counter_backwards() {
    let mut server = LoopState::new(Role::Server, 0);
    for _ in 0..8 {
        server.allocate_channel();
    }
    server.handle_packet(Packet::Resync { max_id: Some(3) }, 0);
    assert_eq!(server.next_id, 8);
}

#[test]
fn violation_placeholder_is_dispatched_into_a_resync() {
    // The kinds a server turns away, fabricated bare and dispatched.
    for kind in [PacketType::NewClient, PacketType::ClientData, PacketType::ResyncEcho] {
        let mut server = LoopState::new(Role::Server, 0);
        let acts = server.handle_packet(violation_packet(kind), 0);
        assert_eq!(acts.len(), 1);
        assert!(matches!(acts[0], Action::StartResync));
    }
    // And the one a client turns away.
    let mut client = LoopState::new(Role::Client, 0);
    let acts = client.handle_packet(violation_packet(PacketType::ServerData), 0);
    assert_eq!(acts.len(), 1);
    assert!(matches!(acts[0], Action::StartResync));
}

#[test]
fn stray_resync_echo_in_the_main_loop_is_a_violation() {
    let mut server = LoopState::new(Role::Server, 0);
    let acts = server.handle_packet(Packet::ResyncEcho { max_id: 4 }, 0);
    assert_eq!(acts.len(), 1);
    assert!(matches!(acts[0], Action::StartResync));
}

#[test]
fn resync_request_carries_the_counter_only_from_the_server() {
    let mut server = LoopState::new(Role::Server, 0);
    server.allocate_channel();
    server.allocate_channel();
    let p = server.resync_request_packet();
    assert!(matches!(p, Packet::Resync { max_id: Some(2) }));
    assert_eq!(p.encode(Direction::ToClient), vec![6, 0, 0, 0, 0, 0, 0, 0, 2]);

    let client = LoopState::new(Role::Client, 0);
    let p = client.resync_request_packet();
    assert!(matches!(p, Packet::Resync { max_id: None }));
    assert_eq!(p.encode(Direction::ToServer), vec![6]);
}

#[test]
fn resync_echo_carries_the_responders_counter() {
    let mut server = LoopState::new(Role::Server, 0);
    server.allocate_channel();
    let p = server.resync_echo_packet();
    assert!(matches!(p, Packet::ResyncEcho { max_id: 1 }));
}

#[test]
fn watchdog_fires_exactly_at_sixty_seconds_of_silence() {
    let s = LoopState::new(Role::Server, 1_000);
    assert!(!s.link_dead(1_000));
    assert!(!s.link_dead(1_000 + KEEP_ALIVE_DEAD_MICROS - 1));
    assert!(s.link_dead(1_000 + KEEP_ALIVE_DEAD_MICROS));
}

#[test]
fn keep_alives_every_fifty_nine_seconds_keep_the_link_alive() {
    let mut s = LoopState::new(Role::Server, 0);
    let step: u128 = KEEP_ALIVE_DEAD_MICROS - 1_000_000;
    let mut now: u128 = 0;
    for _ in 0..5 {
        now += step;
        assert!(!s.link_dead(now - 1));
        s.handle_packet(Packet::KeepAlive, now);
        assert!(!s.link_dead(now));
    }
}

#[test]
fn server_keep_alive_schedule_is_ten_seconds() {
    let mut s = LoopState::new(Role::Server, 0);
    assert!(!s.should_send_keep_alive(KEEP_ALIVE_SEND_MICROS - 1));
    assert!(s.should_send_keep_alive(KEEP_ALIVE_SEND_MICROS));
    s.note_keep_alive_sent(KEEP_ALIVE_SEND_MICROS);
    assert!(!s.should_send_keep_alive(2 * KEEP_ALIVE_SEND_MICROS - 1));
    assert!(s.should_send_keep_alive(2 * KEEP_ALIVE_SEND_MICROS));
}
