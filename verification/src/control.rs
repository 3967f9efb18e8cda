//! The control loop's decisions, shared by both peers.
//!
//! The loop state is the channel table, the monotonic channel counter
//! and the keep-alive clocks.  `handle_packet` turns one received
//! message into the new state and the actions the caller must carry
//! out on its sockets; the caller owns the sockets and the clock and
//! reports events back as plain values.

use vstd::prelude::*;

use crate::packet::Direction;
use crate::packet::Frame;
use crate::packet::Packet;

verus! {

/// Which peer this loop runs in: the server listens and assigns
/// channel ids, the client dials destinations and mirrors the ids.
#[derive(Clone, Copy, Debug, PartialEq, Eq, Structural)]
pub enum Role {
    Server,
    Client,
}

/// What the caller must do after a step, in order.
#[derive(Debug)]
pub enum Action {
    /// Dial the destination and register the new channel under this id.
    OpenChannel(u64),
    /// Close and drop the channel's socket.
    CloseChannel(u64),
    /// Queue these bytes on the channel's adapter.
    DeliverData(u64, Vec<u8>),
    /// Start the channel's penalty window for this many microseconds.
    PunishChannel(u64, u128),
    /// Echo one keep-alive message on the control link.
    SendKeepAlive,
    /// Run the resync initiator procedure now.
    StartResync,
    /// Flush, pause, then answer with a resync echo and flush again.
    RespondResync,
    /// Pause, then run the resync initiator procedure.
    PauseThenResync,
}

/// A server must hear a keep-alive this often or send one itself.
pub const KEEP_ALIVE_SEND_MICROS: u128 = 10000000;

/// Silence on the control link for this long is fatal.
pub const KEEP_ALIVE_DEAD_MICROS: u128 = 60000000;

/// The channel counter after a resync message carrying `m` arrives.
pub open spec fn resync_next_id(n: u64, m: Option<u64>) -> u64 {
    match m {
        Some(v) => if v > n {
            v
        } else {
            n
        },
        None => n,
    }
}

/// The state one control loop keeps between events.
pub struct LoopState {
    /// Live channel ids, in increasing order of creation.
    pub channels: Vec<u64>,
    /// Next channel id to assign; never reused within one link.
    pub next_id: u64,
    /// When the last keep-alive was received, in microseconds.
    pub last_keep_alive_recv: u128,
    /// When the last keep-alive was sent (the server's schedule).
    pub last_keep_alive_sent: u128,
    /// Which peer this is.
    pub role: Role,
}

impl LoopState {
    /// Channel ids are strictly increasing (so unique) and all below
    /// the counter that will mint the next one.
    pub open spec fn wf(self) -> bool {
        &&& forall|i: int, j: int|
            0 <= i < j < self.channels@.len() ==> #[trigger] self.channels@[i]
                < #[trigger] self.channels@[j]
        &&& forall|i: int|
            0 <= i < self.channels@.len() ==> #[trigger] self.channels@[i] < self.next_id
    }

    /// A fresh loop at time `now`: no channels, counter at zero, both
    /// keep-alive clocks just started.
    pub fn new(role: Role, now: u128) -> (r: LoopState)
        ensures
            r.wf(),
            r.channels@ == Seq::<u64>::empty(),
            r.next_id == 0,
            r.last_keep_alive_recv == now,
            r.last_keep_alive_sent == now,
            r.role == role,
    {
        LoopState {
            channels: Vec::new(),
            next_id: 0,
            last_keep_alive_recv: now,
            last_keep_alive_sent: now,
            role,
        }
    }

    /// How many channels are live.
    pub fn channel_count(&self) -> (r: usize)
        ensures
            r == self.channels@.len(),
    {
        self.channels.len()
    }

    /// Whether `id` is a live channel.
    pub fn has_channel(&self, id: u64) -> (r: bool)
        ensures
            r == self.channels@.contains(id),
    {
        let mut i: usize = 0;
        while i < self.channels.len()
            invariant
                i <= self.channels@.len(),
                forall|j: int| 0 <= j < i ==> self.channels@[j] != id,
            decreases self.channels@.len() - i,
        {
            if self.channels[i] == id {
                return true;
            }
            i = i + 1;
        }
        false
    }

    /// Mint the next channel id and register it.
    pub fn allocate_channel(&mut self) -> (r: u64)
        requires
            old(self).wf(),
            old(self).next_id < u64::MAX,
        ensures
            final(self).wf(),
            r == old(self).next_id,
            !old(self).channels@.contains(r),
            final(self).channels@ == old(self).channels@ + seq![r],
            final(self).channels@.contains(r),
            final(self).next_id == old(self).next_id + 1,
            final(self).last_keep_alive_recv == old(self).last_keep_alive_recv,
            final(self).last_keep_alive_sent == old(self).last_keep_alive_sent,
            final(self).role == old(self).role,
    {
        let id = self.next_id;
        proof {
            assert(!self.channels@.contains(id)) by {
                if self.channels@.contains(id) {
                    let k = choose|k: int|
                        0 <= k < self.channels@.len() && self.channels@[k] == id;
                    assert(self.channels@[k] < id);
                }
            }
        }
        self.channels.push(id);
        self.next_id = self.next_id + 1;
        proof {
            assert(self.channels@.last() == id);
            assert(self.channels@.contains(id));
        }
        id
    }

    /// Drop channel `id` if it is live; says whether it was.
    pub fn remove_channel(&mut self, id: u64) -> (found: bool)
        requires
            old(self).wf(),
        ensures
            final(self).wf(),
            found == old(self).channels@.contains(id),
            final(self).channels@ == old(self).channels@.remove_value(id),
            !final(self).channels@.contains(id),
            final(self).next_id == old(self).next_id,
            final(self).last_keep_alive_recv == old(self).last_keep_alive_recv,
            final(self).last_keep_alive_sent == old(self).last_keep_alive_sent,
            final(self).role == old(self).role,
    {
        let ghost pre = self.channels@;
        let mut i: usize = 0;
        while i < self.channels.len()
            invariant
                i <= self.channels@.len(),
                self.channels@ == pre,
                pre == old(self).channels@,
                self.next_id == old(self).next_id,
                self.last_keep_alive_recv == old(self).last_keep_alive_recv,
                self.last_keep_alive_sent == old(self).last_keep_alive_sent,
                self.role == old(self).role,
                self.wf(),
                forall|j: int| 0 <= j < i ==> self.channels@[j] != id,
            decreases self.channels@.len() - i,
        {
            if self.channels[i] == id {
                self.channels.remove(i);
                proof {
                    assert(pre.contains(id)) by {
                        assert(pre[i as int] == id);
                    }
                    pre.index_of_first_ensures(id);
                    assert(pre.index_of_first(id) == Some(i as int)) by {
                        let k = pre.index_of_first(id)->0;
                        if k < i {
                            assert(pre[k] != id);
                        }
                        if k > i {
                            assert(pre[i as int] != id);
                        }
                    }
                    assert(self.channels@ == pre.remove_value(id));
                    pre.remove_ensures(i as int);
                    assert(!self.channels@.contains(id)) by {
                        if self.channels@.contains(id) {
                            let k = choose|k: int|
                                0 <= k < self.channels@.len() && self.channels@[k] == id;
                            if k < i {
                                assert(pre.remove(i as int)[k] == pre[k]);
                            } else {
                                assert(pre.remove(i as int)[k] == pre[k + 1]);
                                assert(pre[i as int] < pre[k + 1]);
                            }
                        }
                    }
                    assert forall|a: int, b: int|
                        0 <= a < b < self.channels@.len() implies #[trigger] self.channels@[a]
                        < #[trigger] self.channels@[b] by {
                        if b < i {
                            assert(self.channels@[a] == pre[a] && self.channels@[b] == pre[b]);
                        } else if a < i <= b {
                            assert(self.channels@[a] == pre[a] && self.channels@[b] == pre[b + 1]);
                        } else {
                            assert(self.channels@[a] == pre[a + 1] && self.channels@[b] == pre[b
                                + 1]);
                        }
                    }
                    assert forall|a: int|
                        0 <= a < self.channels@.len() implies #[trigger] self.channels@[a]
                        < self.next_id by {
                        if a < i {
                            assert(self.channels@[a] == pre[a]);
                        } else {
                            assert(self.channels@[a] == pre[a + 1]);
                        }
                    }
                }
                return true;
            }
            i = i + 1;
        }
        proof {
            assert(!pre.contains(id)) by {
                if pre.contains(id) {
                    let k = choose|k: int| 0 <= k < pre.len() && pre[k] == id;
                    assert(pre[k] != id);
                }
            }
            assert(pre.remove_value(id) == pre) by {
                pre.index_of_first_ensures(id);
            }
        }
        false
    }

    /// Pull the counter forward to a resync counter from the peer;
    /// ids already assigned stay below it.
    pub fn snap_next_id(&mut self, m: u64)
        requires
            old(self).wf(),
        ensures
            final(self).wf(),
            final(self).next_id == resync_next_id(old(self).next_id, Some(m)),
            final(self).channels@ == old(self).channels@,
            final(self).last_keep_alive_recv == old(self).last_keep_alive_recv,
            final(self).last_keep_alive_sent == old(self).last_keep_alive_sent,
            final(self).role == old(self).role,
    {
        if m > self.next_id {
            self.next_id = m;
        }
    }

    /// Record a keep-alive heard at time `now`.
    pub fn note_keep_alive_recv(&mut self, now: u128)
        ensures
            *final(self) == (LoopState { last_keep_alive_recv: now, ..*old(self) }),
    {
        self.last_keep_alive_recv = now;
    }

    /// Record a keep-alive sent at time `now`.
    pub fn note_keep_alive_sent(&mut self, now: u128)
        ensures
            *final(self) == (LoopState { last_keep_alive_sent: now, ..*old(self) }),
    {
        self.last_keep_alive_sent = now;
    }

    /// Whether the server's keep-alive schedule is due at `now`.
    pub fn should_send_keep_alive(&self, now: u128) -> (r: bool)
        ensures
            r == (now >= self.last_keep_alive_sent + KEEP_ALIVE_SEND_MICROS),
    {
        now >= KEEP_ALIVE_SEND_MICROS && now - KEEP_ALIVE_SEND_MICROS >= self.last_keep_alive_sent
    }

    /// Whether the link has been silent fatally long at `now`.
    pub fn link_dead(&self, now: u128) -> (r: bool)
        ensures
            r == (now >= self.last_keep_alive_recv + KEEP_ALIVE_DEAD_MICROS),
    {
        now >= KEEP_ALIVE_DEAD_MICROS && now - KEEP_ALIVE_DEAD_MICROS >= self.last_keep_alive_recv
    }
}

/// The direction of the traffic a peer in this role sends.
pub open spec fn outbound_dir(role: Role) -> Direction {
    match role {
        Role::Server => Direction::ToClient,
        Role::Client => Direction::ToServer,
    }
}

/// The direction of the traffic a peer in this role consumes.
pub open spec fn inbound_dir(role: Role) -> Direction {
    match role {
        Role::Server => Direction::ToServer,
        Role::Client => Direction::ToClient,
    }
}

impl LoopState {
    /// Turn one received message into the new state and the actions
    /// owed, at time `now`.  A message that may not travel toward
    /// this peer — a channel announcement or a data frame going the
    /// wrong way, or a stray resync echo — is a protocol violation
    /// and asks for a resync instead of tearing the tunnel down.
    pub fn handle_packet(&mut self, p: Packet, now: u128) -> (acts: Vec<Action>)
        requires
            old(self).wf(),
            (p matches Packet::NewClient && old(self).role == Role::Client) ==> old(self).next_id
                < u64::MAX,
        ensures
            final(self).wf(),
            final(self).role == old(self).role,
            final(self).channels@ == chans_after(
                old(self).channels@,
                old(self).next_id,
                old(self).role,
                p@,
            ),
            final(self).next_id == next_after(old(self).next_id, old(self).role, p@),
            final(self).last_keep_alive_recv == stamp_after(
                old(self).last_keep_alive_recv,
                p@,
                now,
            ),
            forall|c: u64|
                #[trigger] actions_payload(acts@, c) == delivered_one(
                    old(self).channels@,
                    old(self).role,
                    p@,
                    c,
                ),
            ({
                let pre = *old(self);
                let post = *final(self);
                match p {
                    Packet::NewClient => if pre.role == Role::Server {
                        post.channels@ == pre.channels@ && post.next_id == pre.next_id
                            && post.last_keep_alive_recv == pre.last_keep_alive_recv
                            && post.last_keep_alive_sent == pre.last_keep_alive_sent && acts@
                            =~= seq![Action::StartResync]
                    } else {
                        post.channels@ == pre.channels@ + seq![pre.next_id] && post.next_id
                            == pre.next_id + 1 && post.last_keep_alive_recv
                            == pre.last_keep_alive_recv && post.last_keep_alive_sent
                            == pre.last_keep_alive_sent && acts@ =~= seq![
                            Action::OpenChannel(pre.next_id),
                        ]
                    },
                    Packet::CloseClient { id } => {
                        &&& post.channels@ == pre.channels@.remove_value(id)
                        &&& !post.channels@.contains(id)
                        &&& post.next_id == pre.next_id
                        &&& post.last_keep_alive_recv == pre.last_keep_alive_recv
                        &&& post.last_keep_alive_sent == pre.last_keep_alive_sent
                        &&& (pre.channels@.contains(id) ==> acts@ =~= seq![
                            Action::CloseChannel(id),
                        ])
                        &&& (!pre.channels@.contains(id) ==> acts@ =~= Seq::<Action>::empty())
                    },
                    Packet::KeepAlive => {
                        &&& post.channels@ == pre.channels@
                        &&& post.next_id == pre.next_id
                        &&& post.last_keep_alive_recv == now
                        &&& post.last_keep_alive_sent == pre.last_keep_alive_sent
                        &&& (pre.role == Role::Client ==> acts@ =~= seq![Action::SendKeepAlive])
                        &&& (pre.role == Role::Server ==> acts@ =~= Seq::<Action>::empty())
                    },
                    Packet::ClientData { id, data } => {
                        &&& post.channels@ == pre.channels@
                        &&& post.next_id == pre.next_id
                        &&& post.last_keep_alive_recv == pre.last_keep_alive_recv
                        &&& post.last_keep_alive_sent == pre.last_keep_alive_sent
                        &&& (pre.role == Role::Server ==> acts@ =~= seq![Action::StartResync])
                        &&& (pre.role == Role::Client && pre.channels@.contains(id) ==> acts@
                            =~= seq![Action::DeliverData(id, data)])
                        &&& (pre.role == Role::Client && !pre.channels@.contains(id) ==> acts@
                            =~= Seq::<Action>::empty())
                    },
                    Packet::ServerData { id, data } => {
                        &&& post.channels@ == pre.channels@
                        &&& post.next_id == pre.next_id
                        &&& post.last_keep_alive_recv == pre.last_keep_alive_recv
                        &&& post.last_keep_alive_sent == pre.last_keep_alive_sent
                        &&& (pre.role == Role::Client ==> acts@ =~= seq![Action::StartResync])
                        &&& (pre.role == Role::Server && pre.channels@.contains(id) ==> acts@
                            =~= seq![Action::DeliverData(id, data)])
                        &&& (pre.role == Role::Server && !pre.channels@.contains(id) ==> acts@
                            =~= Seq::<Action>::empty())
                    },
                    Packet::ClientExceededBuffer { id, micros } => {
                        &&& post.channels@ == pre.channels@
                        &&& post.next_id == pre.next_id
                        &&& post.last_keep_alive_recv == pre.last_keep_alive_recv
                        &&& post.last_keep_alive_sent == pre.last_keep_alive_sent
                        &&& (pre.channels@.len() > 1 && pre.channels@.contains(id) ==> acts@
                            =~= seq![Action::PunishChannel(id, micros)])
                        &&& (!(pre.channels@.len() > 1 && pre.channels@.contains(id)) ==> acts@
                            =~= Seq::<Action>::empty())
                    },
                    Packet::Resync { max_id } => {
                        &&& post.channels@ == pre.channels@
                        &&& post.next_id == resync_next_id(pre.next_id, max_id)
                        &&& post.last_keep_alive_recv == pre.last_keep_alive_recv
                        &&& post.last_keep_alive_sent == pre.last_keep_alive_sent
                        &&& (pre.role == Role::Server ==> acts@ =~= seq![Action::RespondResync])
                        &&& (pre.role == Role::Client ==> acts@ =~= seq![
                            Action::PauseThenResync,
                        ])
                    },
                    Packet::ResyncEcho { .. } => {
                        &&& post.channels@ == pre.channels@
                        &&& post.next_id == pre.next_id
                        &&& post.last_keep_alive_recv == pre.last_keep_alive_recv
                        &&& post.last_keep_alive_sent == pre.last_keep_alive_sent
                        &&& acts@ =~= seq![Action::StartResync]
                    },
                }
            }),
    {
        let ghost pf = p@;
        let mut acts: Vec<Action> = Vec::new();
        match p {
            Packet::NewClient => {
                match self.role {
                    Role::Server => {
                        acts.push(Action::StartResync);
                    },
                    Role::Client => {
                        let id = self.allocate_channel();
                        acts.push(Action::OpenChannel(id));
                    },
                }
            },
            Packet::CloseClient { id } => {
                let found = self.remove_channel(id);
                if found {
                    acts.push(Action::CloseChannel(id));
                }
            },
            Packet::KeepAlive => {
                self.note_keep_alive_recv(now);
                match self.role {
                    Role::Client => {
                        acts.push(Action::SendKeepAlive);
                    },
                    Role::Server => {},
                }
            },
            Packet::ClientData { id, data } => {
                match self.role {
                    Role::Server => {
                        acts.push(Action::StartResync);
                    },
                    Role::Client => {
                        if self.has_channel(id) {
                            acts.push(Action::DeliverData(id, data));
                        }
                    },
                }
            },
            Packet::ServerData { id, data } => {
                match self.role {
                    Role::Client => {
                        acts.push(Action::StartResync);
                    },
                    Role::Server => {
                        if self.has_channel(id) {
                            acts.push(Action::DeliverData(id, data));
                        }
                    },
                }
            },
            Packet::ClientExceededBuffer { id, micros } => {
                if self.channel_count() > 1 && self.has_channel(id) {
                    acts.push(Action::PunishChannel(id, micros));
                }
            },
            Packet::Resync { max_id } => {
                if let Some(m) = max_id {
                    self.snap_next_id(m);
                }
                match self.role {
                    Role::Server => {
                        acts.push(Action::RespondResync);
                    },
                    Role::Client => {
                        acts.push(Action::PauseThenResync);
                    },
                }
            },
            Packet::ResyncEcho { .. } => {
                acts.push(Action::StartResync);
            },
        }
        proof {
            let chans0 = old(self).channels@;
            let role0 = old(self).role;
            assert forall|c: u64| #[trigger] actions_payload(acts@, c) == delivered_one(
                chans0,
                role0,
                pf,
                c,
            ) by {
                if acts@.len() == 0 {
                    assert(actions_payload(acts@, c) == Seq::<u8>::empty());
                } else {
                    assert(acts@.drop_first().len() == 0);
                    assert(actions_payload(acts@.drop_first(), c) == Seq::<u8>::empty());
                    assert(actions_payload(acts@, c) =~= (match acts@.first() {
                        Action::DeliverData(id, data) => if id == c {
                            data@
                        } else {
                            Seq::<u8>::empty()
                        },
                        _ => Seq::<u8>::empty(),
                    }));
                }
            }
        }
        acts
    }

    /// The resync request this peer sends when it reads garbage: the
    /// server's carries its channel counter, the client's is bare.
    pub fn resync_request_packet(&self) -> (r: Packet)
        ensures
            r@ == (Frame::Resync {
                max_id: if self.role == Role::Server {
                    Some(self.next_id)
                } else {
                    None
                },
            }),
            crate::packet::frame_ok(r@, outbound_dir(self.role)),
    {
        match self.role {
            Role::Server => Packet::Resync { max_id: Some(self.next_id) },
            Role::Client => Packet::Resync { max_id: None },
        }
    }

    /// The echo a responder sends to finish a resync, carrying its
    /// channel counter for the peer to snap to.
    pub fn resync_echo_packet(&self) -> (r: Packet)
        ensures
            r@ == (Frame::ResyncEcho { max_id: self.next_id }),
            crate::packet::frame_ok(r@, outbound_dir(self.role)),
    {
        Packet::ResyncEcho { max_id: self.next_id }
    }
}

/// Everything a client run needs to know: where the server is, where
/// tunneled connections go, the shared key, the idle sleep, and the
/// optional serial-modem bring-up.
pub struct ClientParams<'a> {
    pub server_ip: &'a str,
    pub server_port: u16,
    pub dest_ip: &'a str,
    pub dest_port: u16,
    pub key: &'a str,
    pub sleep_delay_ms: u64,
    pub modem_port: Option<&'a str>,
    pub modem_baud: Option<u32>,
    pub modem_init: Option<&'a str>,
    pub rate_limit_sleep: u64,
}

/// The data frame this peer emits for bytes read off channel `id`:
/// the server wraps them destination-bound, the client public-bound.
pub fn data_packet(role: Role, id: u64, data: Vec<u8>) -> (r: Packet)
    requires
        data@.len() <= u32::MAX,
    ensures
        r@ == (match role {
            Role::Server => Frame::ClientData { id, data: data@ },
            Role::Client => Frame::ServerData { id, data: data@ },
        }),
        crate::packet::frame_ok(r@, outbound_dir(role)),
        crate::packet::frame_payload_for(r@, id) == data@,
{
    match role {
        Role::Server => Packet::ClientData { id, data },
        Role::Client => Packet::ServerData { id, data },
    }
}

/// The penalty report for channel `id` after a synchronous drain took
/// `micros` microseconds; the emitter punishes its own side by the
/// same amount, the receiver mirrors it.
pub fn penalty_packet(id: u64, micros: u128) -> (r: Packet)
    ensures
        r@ == (Frame::ClientExceededBuffer { id, micros }),
        crate::packet::frame_ok(r@, Direction::ToClient),
        crate::packet::frame_ok(r@, Direction::ToServer),
{
    Packet::ClientExceededBuffer { id, micros }
}

/// The placeholder message the loop dispatches for a kind that may
/// not travel toward it (the read schedule gave no body): the bare
/// variant of that kind, whose dispatch answers with a resync.  What
/// the frame actually carried stays on the wire for the resync's
/// drain to swallow.
pub fn violation_packet(kind: crate::packet::PacketType) -> (r: Packet)
    ensures
        r.kind_spec() == kind,
        crate::packet::frame_kind(r@) == kind,
{
    match kind {
        crate::packet::PacketType::NewClient => Packet::NewClient,
        crate::packet::PacketType::CloseClient => Packet::CloseClient { id: 0 },
        crate::packet::PacketType::KeepAlive => Packet::KeepAlive,
        crate::packet::PacketType::ClientData => Packet::ClientData { id: 0, data: Vec::new() },
        crate::packet::PacketType::ServerData => Packet::ServerData { id: 0, data: Vec::new() },
        crate::packet::PacketType::ClientExceededBuffer => Packet::ClientExceededBuffer {
            id: 0,
            micros: 0,
        },
        crate::packet::PacketType::Resync => Packet::Resync { max_id: None },
        crate::packet::PacketType::ResyncEcho => Packet::ResyncEcho { max_id: 0 },
    }
}

/// What one channel's non-blocking poll means for the loop.
#[derive(Clone, Copy, Debug, PartialEq, Eq, Structural)]
pub enum PollVerdict {
    /// Nothing was ready; the channel stays as it is.
    Nothing,
    /// This many bytes arrived and must be framed for the peer.
    Forward(usize),
    /// The socket closed or failed: notify the peer and drop it.
    Remove,
}

/// The loop's rule for one channel's poll result: zero bytes means
/// the peer closed and any hard error retires the channel; data is
/// forwarded; no progress is no news.
pub fn poll_verdict(outcome: Result<Option<usize>, crate::IoErrorKind>) -> (r: PollVerdict)
    ensures
        match outcome {
            Ok(Some(n)) => if n == 0 {
                r == PollVerdict::Remove
            } else {
                r == PollVerdict::Forward(n)
            },
            Ok(None) => r == PollVerdict::Nothing,
            Err(_) => r == PollVerdict::Remove,
        },
{
    match outcome {
        Ok(Some(0)) => PollVerdict::Remove,
        Ok(Some(n)) => PollVerdict::Forward(n),
        Ok(None) => PollVerdict::Nothing,
        Err(_) => PollVerdict::Remove,
    }
}

/// Resync idempotence, state half: a resync leaves the channel table
/// untouched (stated by `handle_packet`), and its counter update
/// settles after one application — a second back-to-back resync
/// carrying the same counter changes nothing more.
pub proof fn lemma_resync_idempotent(n: u64, m: Option<u64>)
    ensures
        resync_next_id(resync_next_id(n, m), m) == resync_next_id(n, m),
{
}

/// The bytes a batch of actions queues for channel `c`, in order.
pub open spec fn actions_payload(acts: Seq<Action>, c: u64) -> Seq<u8>
    decreases acts.len(),
{
    if acts.len() == 0 {
        Seq::empty()
    } else {
        (match acts.first() {
            Action::DeliverData(id, data) => if id == c {
                data@
            } else {
                Seq::empty()
            },
            _ => Seq::empty(),
        }) + actions_payload(acts.drop_first(), c)
    }
}

/// The watchdog stamp after the dispatcher handles one frame at time
/// `now`: only a keep-alive refreshes it.
pub open spec fn stamp_after(prev: u128, f: Frame, now: u128) -> u128 {
    match f {
        Frame::KeepAlive => now,
        _ => prev,
    }
}

/// The channel table after the dispatcher handles one frame: only a
/// channel announcement (at the client) or a close notice moves it.
pub open spec fn chans_after(chans: Seq<u64>, next: u64, role: Role, f: Frame) -> Seq<u64> {
    match f {
        Frame::NewClient => if role == Role::Client {
            chans + seq![next]
        } else {
            chans
        },
        Frame::CloseClient { id } => chans.remove_value(id),
        _ => chans,
    }
}

/// The channel counter after the dispatcher handles one frame.
pub open spec fn next_after(next: u64, role: Role, f: Frame) -> u64 {
    match f {
        Frame::NewClient => if role == Role::Client {
            (next + 1) as u64
        } else {
            next
        },
        Frame::Resync { max_id } => resync_next_id(next, max_id),
        _ => next,
    }
}

/// The bytes the dispatcher queues for channel `c` on one frame: the
/// payload of a data frame going its way, addressed to `c`, while
/// `c` is live; nothing otherwise.
pub open spec fn delivered_one(chans: Seq<u64>, role: Role, f: Frame, c: u64) -> Seq<u8> {
    match f {
        Frame::ClientData { id, data } => if role == Role::Client && id == c && chans.contains(
            id,
        ) {
            data
        } else {
            Seq::empty()
        },
        Frame::ServerData { id, data } => if role == Role::Server && id == c && chans.contains(
            id,
        ) {
            data
        } else {
            Seq::empty()
        },
        _ => Seq::empty(),
    }
}

/// The bytes the dispatcher queues for channel `c` over a whole
/// frame sequence, the table and counter evolving as it goes.
pub open spec fn run_delivered(
    chans: Seq<u64>,
    next: u64,
    role: Role,
    fs: Seq<Frame>,
    c: u64,
) -> Seq<u8>
    decreases fs.len(),
{
    if fs.len() == 0 {
        Seq::empty()
    } else {
        delivered_one(chans, role, fs.first(), c) + run_delivered(
            chans_after(chans, next, role, fs.first()),
            next_after(next, role, fs.first()),
            role,
            fs.drop_first(),
            c,
        )
    }
}

/// Whether a frame is the close notice for channel `c`.
pub open spec fn closes_channel(f: Frame, c: u64) -> bool {
    match f {
        Frame::CloseClient { id } => id == c,
        _ => false,
    }
}

/// The channel counter never overflows while these frames are
/// dispatched.
pub open spec fn counter_room(next: u64, role: Role, fs: Seq<Frame>) -> bool
    decreases fs.len(),
{
    if fs.len() == 0 {
        true
    } else {
        &&& (role == Role::Client && (fs.first() matches Frame::NewClient) ==> next < u64::MAX)
        &&& counter_room(next_after(next, role, fs.first()), role, fs.drop_first())
    }
}

/// Removing one value from a sequence does not touch whether any
/// other value occurs in it.
proof fn lemma_remove_value_keeps_others(s: Seq<u64>, v: u64, x: u64)
    requires
        x != v,
    ensures
        s.remove_value(v).contains(x) == s.contains(x),
{
    s.index_of_first_ensures(v);
    match s.index_of_first(v) {
        None => {},
        Some(i) => {
            s.remove_ensures(i);
            let r = s.remove(i);
            if s.contains(x) {
                let k = choose|k: int| 0 <= k < s.len() && s[k] == x;
                if k < i {
                    assert(r[k] == x);
                } else if k > i {
                    assert(r[k - 1] == s[k]);
                }
                assert(r.contains(x));
            }
            if r.contains(x) {
                let k = choose|k: int| 0 <= k < r.len() && r[k] == x;
                if k < i {
                    assert(s[k] == x);
                } else {
                    assert(r[k] == s[k + 1]);
                }
                assert(s.contains(x));
            }
        },
    }
}

/// Order preservation per channel, receiver half: run the dispatcher
/// over any frame sequence headed its way; as long as channel `c` is
/// live at the start and no frame closes it, the bytes queued for
/// `c` are exactly the bytes the frames carry for `c`, in order —
/// traffic on other channels, keep-alives, penalties and resyncs
/// interleave without reordering or dropping any of them.
pub proof fn lemma_run_delivers_channel(
    chans: Seq<u64>,
    next: u64,
    role: Role,
    fs: Seq<Frame>,
    c: u64,
)
    requires
        forall|i: int| 0 <= i < fs.len() ==> crate::packet::frame_ok(#[trigger] fs[i], inbound_dir(role)),
        forall|i: int| 0 <= i < fs.len() ==> !closes_channel(#[trigger] fs[i], c),
        chans.contains(c),
        forall|x: u64| chans.contains(x) ==> x < next,
        counter_room(next, role, fs),
    ensures
        run_delivered(chans, next, role, fs, c) == crate::packet::channel_payload(fs, c),
    decreases fs.len(),
{
    if fs.len() == 0 {
    } else {
        let f = fs.first();
        let rest = fs.drop_first();
        let chans2 = chans_after(chans, next, role, f);
        let next2 = next_after(next, role, f);
        assert(forall|i: int| 0 <= i < rest.len() ==> rest[i] == fs[i + 1]);
        assert(delivered_one(chans, role, f, c) == crate::packet::frame_payload_for(f, c)) by {
            match f {
                Frame::ClientData { id, data } => {
                    assert(crate::packet::frame_ok(f, inbound_dir(role)));
                },
                Frame::ServerData { id, data } => {
                    assert(crate::packet::frame_ok(f, inbound_dir(role)));
                },
                _ => {},
            }
        }
        assert(chans2.contains(c)) by {
            match f {
                Frame::CloseClient { id } => {
                    lemma_remove_value_keeps_others(chans, id, c);
                },
                Frame::NewClient => {
                    if role == Role::Client {
                        assert(chans2[choose|k: int|
                            0 <= k < chans.len() && chans[k] == c] == c);
                    }
                },
                _ => {},
            }
        }
        assert(forall|x: u64| chans2.contains(x) ==> x < next2) by {
            assert forall|x: u64| chans2.contains(x) implies x < next2 by {
                match f {
                    Frame::NewClient => {
                        if role == Role::Client {
                            let k = choose|k: int| 0 <= k < chans2.len() && chans2[k] == x;
                            if k < chans.len() {
                                assert(chans.contains(x));
                            } else {
                                assert(x == next);
                            }
                        }
                    },
                    Frame::CloseClient { id } => {
                        let k = choose|k: int| 0 <= k < chans2.len() && chans2[k] == x;
                        chans.index_of_first_ensures(id);
                        match chans.index_of_first(id) {
                            None => {
                                assert(chans.contains(x));
                            },
                            Some(i) => {
                                chans.remove_ensures(i);
                                if k < i {
                                    assert(chans[k] == x);
                                } else {
                                    assert(chans2[k] == chans[k + 1]);
                                }
                                assert(chans.contains(x));
                            },
                        }
                    },
                    Frame::Resync { max_id } => {
                        assert(chans.contains(x));
                        assert(next2 >= next);
                    },
                    _ => {
                        assert(chans.contains(x));
                    },
                }
            }
        }
        lemma_run_delivers_channel(chans2, next2, role, rest, c);
    }
}

/// The tunnel, end to end: take any frames a well-behaved sender
/// interleaved on the control link toward this peer.  The byte
/// stream parses back into exactly those frames, and the dispatcher,
/// run over them, queues for every channel that stays open exactly
/// the bytes that were framed for it, in order.
pub proof fn lemma_end_to_end_delivery(
    chans: Seq<u64>,
    next: u64,
    role: Role,
    fs: Seq<Frame>,
    c: u64,
)
    requires
        forall|i: int| 0 <= i < fs.len() ==> crate::packet::frame_ok(#[trigger] fs[i], inbound_dir(role)),
        forall|i: int| 0 <= i < fs.len() ==> !closes_channel(#[trigger] fs[i], c),
        chans.contains(c),
        forall|x: u64| chans.contains(x) ==> x < next,
        counter_room(next, role, fs),
    ensures
        crate::packet::spec_parse_all(
            inbound_dir(role),
            crate::packet::frames_bytes(fs, inbound_dir(role)),
        ) == Some(fs),
        run_delivered(chans, next, role, fs, c) == crate::packet::channel_payload(fs, c),
{
    crate::packet::lemma_stream_parses(inbound_dir(role), fs);
    lemma_run_delivers_channel(chans, next, role, fs, c);
}

/// The keep-alive stamp the watchdog sees at time `c`: the latest
/// receipt no later than `c`, or the link start `init` before any.
pub open spec fn stamp_at(init: u128, rs: Seq<u128>, c: u128) -> u128
    decreases rs.len(),
{
    if rs.len() == 0 {
        init
    } else if rs.last() <= c {
        rs.last()
    } else {
        stamp_at(init, rs.drop_last(), c)
    }
}

/// Receipt times in order, each less than the fatal window after the
/// one before (or after the link start, for the first).
pub open spec fn keep_alive_gaps_ok(init: u128, rs: Seq<u128>) -> bool {
    &&& forall|i: int| 0 <= i < rs.len() - 1 ==> #[trigger] rs[i] <= rs[i + 1]
    &&& (rs.len() > 0 ==> init <= rs[0] && rs[0] < init + KEEP_ALIVE_DEAD_MICROS)
    &&& forall|i: int| 0 <= i < rs.len() - 1 ==> rs[i + 1] < #[trigger] rs[i]
        + KEEP_ALIVE_DEAD_MICROS
}

/// Once every receipt in the record lies at or before the check
/// time, the watchdog stamp is simply the last receipt — which is
/// what the loop holds, since each keep-alive sets the stamp to its
/// own time and nothing else touches it.
pub proof fn lemma_stamp_at_is_last_receipt(init: u128, rs: Seq<u128>, c: u128)
    requires
        forall|i: int| 0 <= i < rs.len() ==> #[trigger] rs[i] <= c,
    ensures
        stamp_at(init, rs, c) == if rs.len() == 0 {
            init
        } else {
            rs.last()
        },
{
}

/// Keep-alive liveness: when every keep-alive arrives within the
/// fatal window of the one before, a watchdog check at any time up to
/// one window past the last receipt finds the stamp fresh — `link_dead`
/// is false, since the loop's stamp at time `c` is `stamp_at`.
pub proof fn lemma_keep_alive_liveness(init: u128, rs: Seq<u128>, c: u128)
    requires
        keep_alive_gaps_ok(init, rs),
        init <= c,
        c < (if rs.len() == 0 {
            init
        } else {
            rs.last()
        }) + KEEP_ALIVE_DEAD_MICROS,
    ensures
        c < stamp_at(init, rs, c) + KEEP_ALIVE_DEAD_MICROS,
    decreases rs.len(),
{
    if rs.len() == 0 {
    } else if rs.last() <= c {
    } else {
        let rs2 = rs.drop_last();
        assert(forall|i: int| 0 <= i < rs2.len() ==> rs2[i] == rs[i]);
        assert(keep_alive_gaps_ok(init, rs2));
        if rs2.len() == 0 {
            assert(c < rs[0]);
        } else {
            assert(rs2.last() == rs[rs.len() - 2]);
            assert(rs.last() < rs[rs.len() - 2] + KEEP_ALIVE_DEAD_MICROS);
        }
        lemma_keep_alive_liveness(init, rs2, c);
    }
}

} // verus!
