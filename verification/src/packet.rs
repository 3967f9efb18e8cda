//! Wire codec for the control link.
//!
//! Every message is one discriminator byte followed by a fixed payload
//! shape; all multi-byte integers are big-endian.  `ClientData` travels
//! only server-to-client, `ServerData` only client-to-server, and the
//! `Resync` message carries a trailing channel counter only when the
//! server sends it.

use vstd::prelude::*;

verus! {

/// The eight message kinds, in wire order: the discriminator byte of a
/// kind is its position in this declaration.
#[derive(Clone, Copy, Debug, PartialEq, Eq, Structural)]
pub enum PacketType {
    NewClient,
    CloseClient,
    KeepAlive,
    ClientData,
    ServerData,
    ClientExceededBuffer,
    Resync,
    ResyncEcho,
}

/// Which peer a byte stream is headed for.  The grammar of the stream
/// depends on it: data frames are one-directional and `Resync` carries
/// its counter only toward the client.
#[derive(Clone, Copy, Debug, PartialEq, Eq, Structural)]
pub enum Direction {
    ToClient,
    ToServer,
}

impl PacketType {
    /// The wire discriminator of this kind.
    pub open spec fn ordinal_spec(self) -> u8 {
        match self {
            PacketType::NewClient => 0,
            PacketType::CloseClient => 1,
            PacketType::KeepAlive => 2,
            PacketType::ClientData => 3,
            PacketType::ServerData => 4,
            PacketType::ClientExceededBuffer => 5,
            PacketType::Resync => 6,
            PacketType::ResyncEcho => 7,
        }
    }

    /// The kind a discriminator byte stands for, if any.
    pub open spec fn from_ordinal_spec(b: u8) -> Option<PacketType> {
        if b == 0 {
            Some(PacketType::NewClient)
        } else if b == 1 {
            Some(PacketType::CloseClient)
        } else if b == 2 {
            Some(PacketType::KeepAlive)
        } else if b == 3 {
            Some(PacketType::ClientData)
        } else if b == 4 {
            Some(PacketType::ServerData)
        } else if b == 5 {
            Some(PacketType::ClientExceededBuffer)
        } else if b == 6 {
            Some(PacketType::Resync)
        } else if b == 7 {
            Some(PacketType::ResyncEcho)
        } else {
            None
        }
    }

    /// Discriminator byte of this kind.
    pub fn ordinal(self) -> (r: u8)
        ensures
            r == self.ordinal_spec(),
    {
        match self {
            PacketType::NewClient => 0,
            PacketType::CloseClient => 1,
            PacketType::KeepAlive => 2,
            PacketType::ClientData => 3,
            PacketType::ServerData => 4,
            PacketType::ClientExceededBuffer => 5,
            PacketType::Resync => 6,
            PacketType::ResyncEcho => 7,
        }
    }

    /// Decode a discriminator byte; `None` for a byte outside the wire
    /// alphabet (the caller then starts a resync).
    pub fn from_ordinal(b: u8) -> (r: Option<PacketType>)
        ensures
            r == Self::from_ordinal_spec(b),
            r is Some <==> b < 8,
            r is Some ==> r->0.ordinal_spec() == b,
    {
        match b {
            0 => Some(PacketType::NewClient),
            1 => Some(PacketType::CloseClient),
            2 => Some(PacketType::KeepAlive),
            3 => Some(PacketType::ClientData),
            4 => Some(PacketType::ServerData),
            5 => Some(PacketType::ClientExceededBuffer),
            6 => Some(PacketType::Resync),
            7 => Some(PacketType::ResyncEcho),
            _ => None,
        }
    }
}

/// Value of four big-endian bytes.
pub open spec fn be32(s: Seq<u8>) -> u32
    recommends
        s.len() == 4,
{
    ((s[0] as u32) << 24) | ((s[1] as u32) << 16) | ((s[2] as u32) << 8) | (s[3] as u32)
}

/// Value of eight big-endian bytes.
pub open spec fn be64(s: Seq<u8>) -> u64
    recommends
        s.len() == 8,
{
    ((s[0] as u64) << 56) | ((s[1] as u64) << 48) | ((s[2] as u64) << 40) | ((s[3] as u64) << 32)
        | ((s[4] as u64) << 24) | ((s[5] as u64) << 16) | ((s[6] as u64) << 8) | (s[7] as u64)
}

/// Value of sixteen big-endian bytes.
pub open spec fn be128(s: Seq<u8>) -> u128
    recommends
        s.len() == 16,
{
    ((be64(s.subrange(0, 8)) as u128) << 64) | (be64(s.subrange(8, 16)) as u128)
}

/// Big-endian bytes of a `u32`.
pub open spec fn be32_bytes(v: u32) -> Seq<u8> {
    seq![((v >> 24) & 0xff) as u8, ((v >> 16) & 0xff) as u8, ((v >> 8) & 0xff) as u8, (
    v & 0xff) as u8]
}

/// Big-endian bytes of a `u64`.
pub open spec fn be64_bytes(v: u64) -> Seq<u8> {
    seq![((v >> 56) & 0xff) as u8, ((v >> 48) & 0xff) as u8, ((v >> 40) & 0xff) as u8, (
    (v >> 32) & 0xff) as u8, ((v >> 24) & 0xff) as u8, ((v >> 16) & 0xff) as u8, (
    (v >> 8) & 0xff) as u8, (v & 0xff) as u8]
}

/// Big-endian bytes of a `u128`.
pub open spec fn be128_bytes(v: u128) -> Seq<u8> {
    be64_bytes(((v >> 64) & 0xffff_ffff_ffff_ffff) as u64) + be64_bytes(
        (v & 0xffff_ffff_ffff_ffff) as u64,
    )
}

/// Reading back the bytes of a `u32` yields the value.
pub proof fn lemma_be32_round_trip(v: u32)
    ensures
        be32(be32_bytes(v)) == v,
        be32_bytes(v).len() == 4,
{
    let s = be32_bytes(v);
    assert((((((v >> 24) & 0xff) as u8) as u32) << 24) | (((((v >> 16) & 0xff) as u8) as u32)
        << 16) | (((((v >> 8) & 0xff) as u8) as u32) << 8) | ((((v & 0xff) as u8) as u32))
        == v) by (bit_vector);
    assert(be32(s) == v);
}

/// Reading back the bytes of a `u64` yields the value.
pub proof fn lemma_be64_round_trip(v: u64)
    ensures
        be64(be64_bytes(v)) == v,
        be64_bytes(v).len() == 8,
{
    let s = be64_bytes(v);
    assert((((((v >> 56) & 0xff) as u8) as u64) << 56) | (((((v >> 48) & 0xff) as u8) as u64)
        << 48) | (((((v >> 40) & 0xff) as u8) as u64) << 40) | (((((v >> 32) & 0xff) as u8)
        as u64) << 32) | (((((v >> 24) & 0xff) as u8) as u64) << 24) | (((((v >> 16)
        & 0xff) as u8) as u64) << 16) | (((((v >> 8) & 0xff) as u8) as u64) << 8) | ((((v
        & 0xff) as u8) as u64)) == v) by (bit_vector);
    assert(be64(s) == v);
}

/// Reading back the bytes of a `u128` yields the value.
pub proof fn lemma_be128_round_trip(v: u128)
    ensures
        be128(be128_bytes(v)) == v,
        be128_bytes(v).len() == 16,
{
    let hi = ((v >> 64) & 0xffff_ffff_ffff_ffff) as u64;
    let lo = (v & 0xffff_ffff_ffff_ffff) as u64;
    lemma_be64_round_trip(hi);
    lemma_be64_round_trip(lo);
    let s = be128_bytes(v);
    assert(s.subrange(0, 8) =~= be64_bytes(hi));
    assert(s.subrange(8, 16) =~= be64_bytes(lo));
    assert(((hi as u128) << 64) | (lo as u128) == v) by (bit_vector)
        requires
            hi == ((v >> 64) & 0xffff_ffff_ffff_ffff) as u64,
            lo == (v & 0xffff_ffff_ffff_ffff) as u64,
    ;
}

/// One byte of `v`, `sh` bits down from the top.
fn byte_of_u64(v: u64, sh: u64) -> (r: u8)
    requires
        sh < 64,
    ensures
        r == ((v >> sh) & 0xff) as u8,
{
    proof {
        assert(((v >> sh) & 0xff) < 256) by (bit_vector);
    }
    ((v >> sh) & 0xff) as u8
}

/// One byte of `v`, `sh` bits down from the top.
fn byte_of_u32(v: u32, sh: u32) -> (r: u8)
    requires
        sh < 32,
    ensures
        r == ((v >> sh) & 0xff) as u8,
{
    proof {
        assert(((v >> sh) & 0xff) < 256) by (bit_vector);
    }
    ((v >> sh) & 0xff) as u8
}

/// Append the four big-endian bytes of `v` to `out`.
pub fn push_u32_be(out: &mut Vec<u8>, v: u32)
    ensures
        final(out)@ == old(out)@ + be32_bytes(v),
{
    out.push(byte_of_u32(v, 24));
    out.push(byte_of_u32(v, 16));
    out.push(byte_of_u32(v, 8));
    out.push(byte_of_u32(v, 0));
    proof {
        assert(v >> 0 == v) by (bit_vector);
        assert(out@ =~= old(out)@ + be32_bytes(v));
    }
}

/// Append the eight big-endian bytes of `v` to `out`.
pub fn push_u64_be(out: &mut Vec<u8>, v: u64)
    ensures
        final(out)@ == old(out)@ + be64_bytes(v),
{
    out.push(byte_of_u64(v, 56));
    out.push(byte_of_u64(v, 48));
    out.push(byte_of_u64(v, 40));
    out.push(byte_of_u64(v, 32));
    out.push(byte_of_u64(v, 24));
    out.push(byte_of_u64(v, 16));
    out.push(byte_of_u64(v, 8));
    out.push(byte_of_u64(v, 0));
    proof {
        assert(v >> 0 == v) by (bit_vector);
        assert(out@ =~= old(out)@ + be64_bytes(v));
    }
}

/// Append the sixteen big-endian bytes of `v` to `out`.
pub fn push_u128_be(out: &mut Vec<u8>, v: u128)
    ensures
        final(out)@ == old(out)@ + be128_bytes(v),
{
    proof {
        assert(((v >> 64) & 0xffff_ffff_ffff_ffff) < 0x1_0000_0000_0000_0000
            && (v & 0xffff_ffff_ffff_ffff) < 0x1_0000_0000_0000_0000) by (bit_vector);
    }
    let hi = ((v >> 64) & 0xffff_ffff_ffff_ffff) as u64;
    let lo = (v & 0xffff_ffff_ffff_ffff) as u64;
    push_u64_be(out, hi);
    push_u64_be(out, lo);
    proof {
        assert(out@ =~= old(out)@ + be128_bytes(v));
    }
}

/// Decode four big-endian bytes.
pub fn decode_u32_be(s: &[u8]) -> (r: u32)
    requires
        s@.len() == 4,
    ensures
        r == be32(s@),
{
    ((s[0] as u32) << 24) | ((s[1] as u32) << 16) | ((s[2] as u32) << 8) | (s[3] as u32)
}

/// Decode eight big-endian bytes.
pub fn decode_u64_be(s: &[u8]) -> (r: u64)
    requires
        s@.len() == 8,
    ensures
        r == be64(s@),
{
    ((s[0] as u64) << 56) | ((s[1] as u64) << 48) | ((s[2] as u64) << 40) | ((s[3] as u64) << 32)
        | ((s[4] as u64) << 24) | ((s[5] as u64) << 16) | ((s[6] as u64) << 8) | (s[7] as u64)
}

/// Decode sixteen big-endian bytes.
pub fn decode_u128_be(s: &[u8]) -> (r: u128)
    requires
        s@.len() == 16,
    ensures
        r == be128(s@),
{
    let mut hi_bytes: Vec<u8> = Vec::new();
    let mut lo_bytes: Vec<u8> = Vec::new();
    let mut i: usize = 0;
    while i < 8
        invariant
            i <= 8,
            s@.len() == 16,
            hi_bytes@ == s@.subrange(0, i as int),
        decreases 8 - i,
    {
        hi_bytes.push(s[i]);
        i = i + 1;
        proof {
            assert(hi_bytes@ =~= s@.subrange(0, i as int));
        }
    }
    let mut j: usize = 8;
    while j < 16
        invariant
            8 <= j <= 16,
            s@.len() == 16,
            lo_bytes@ == s@.subrange(8, j as int),
        decreases 16 - j,
    {
        lo_bytes.push(s[j]);
        j = j + 1;
        proof {
            assert(lo_bytes@ =~= s@.subrange(8, j as int));
        }
    }
    let hi = decode_u64_be(hi_bytes.as_slice());
    let lo = decode_u64_be(lo_bytes.as_slice());
    ((hi as u128) << 64) | (lo as u128)
}

/// Mathematical model of one framed message.
#[allow(inconsistent_fields)]
pub ghost enum Frame {
    NewClient,
    CloseClient { id: u64 },
    KeepAlive,
    ClientData { id: u64, data: Seq<u8> },
    ServerData { id: u64, data: Seq<u8> },
    ClientExceededBuffer { id: u64, micros: u128 },
    Resync { max_id: Option<u64> },
    ResyncEcho { max_id: u64 },
}

/// One framed message as held in memory.
#[allow(inconsistent_fields)]
#[derive(Debug)]
pub enum Packet {
    NewClient,
    CloseClient { id: u64 },
    KeepAlive,
    ClientData { id: u64, data: Vec<u8> },
    ServerData { id: u64, data: Vec<u8> },
    ClientExceededBuffer { id: u64, micros: u128 },
    Resync { max_id: Option<u64> },
    ResyncEcho { max_id: u64 },
}

impl View for Packet {
    type V = Frame;

    open spec fn view(&self) -> Frame {
        match self {
            Packet::NewClient => Frame::NewClient,
            Packet::CloseClient { id } => Frame::CloseClient { id: *id },
            Packet::KeepAlive => Frame::KeepAlive,
            Packet::ClientData { id, data } => Frame::ClientData { id: *id, data: data@ },
            Packet::ServerData { id, data } => Frame::ServerData { id: *id, data: data@ },
            Packet::ClientExceededBuffer { id, micros } => Frame::ClientExceededBuffer {
                id: *id,
                micros: *micros,
            },
            Packet::Resync { max_id } => Frame::Resync { max_id: *max_id },
            Packet::ResyncEcho { max_id } => Frame::ResyncEcho { max_id: *max_id },
        }
    }
}

/// The kind of a frame.
pub open spec fn frame_kind(f: Frame) -> PacketType {
    match f {
        Frame::NewClient => PacketType::NewClient,
        Frame::CloseClient { .. } => PacketType::CloseClient,
        Frame::KeepAlive => PacketType::KeepAlive,
        Frame::ClientData { .. } => PacketType::ClientData,
        Frame::ServerData { .. } => PacketType::ServerData,
        Frame::ClientExceededBuffer { .. } => PacketType::ClientExceededBuffer,
        Frame::Resync { .. } => PacketType::Resync,
        Frame::ResyncEcho { .. } => PacketType::ResyncEcho,
    }
}

/// Whether a frame may travel in the given direction: data frames are
/// one-directional, only the server announces channels, and only the
/// server-sent `Resync` carries a channel counter.
pub open spec fn frame_ok(f: Frame, dir: Direction) -> bool {
    match f {
        Frame::NewClient => dir == Direction::ToClient,
        Frame::CloseClient { .. } => true,
        Frame::KeepAlive => true,
        Frame::ClientData { data, .. } => dir == Direction::ToClient && data.len() <= u32::MAX,
        Frame::ServerData { data, .. } => dir == Direction::ToServer && data.len() <= u32::MAX,
        Frame::ClientExceededBuffer { .. } => true,
        Frame::Resync { max_id } => (max_id is Some) == (dir == Direction::ToClient),
        Frame::ResyncEcho { .. } => true,
    }
}

/// Wire bytes of one frame.
pub open spec fn frame_bytes(f: Frame, dir: Direction) -> Seq<u8> {
    match f {
        Frame::NewClient => seq![0u8],
        Frame::CloseClient { id } => seq![1u8] + be64_bytes(id),
        Frame::KeepAlive => seq![2u8],
        Frame::ClientData { id, data } => seq![3u8] + be64_bytes(id) + be32_bytes(
            data.len() as u32,
        ) + data,
        Frame::ServerData { id, data } => seq![4u8] + be64_bytes(id) + be32_bytes(
            data.len() as u32,
        ) + data,
        Frame::ClientExceededBuffer { id, micros } => seq![5u8] + be64_bytes(id) + be128_bytes(
            micros,
        ),
        Frame::Resync { max_id } => match max_id {
            Some(m) => seq![6u8] + be64_bytes(m),
            None => seq![6u8],
        },
        Frame::ResyncEcho { max_id } => seq![7u8] + be64_bytes(max_id),
    }
}

/// Wire bytes of a sequence of frames, in order.
pub open spec fn frames_bytes(fs: Seq<Frame>, dir: Direction) -> Seq<u8>
    decreases fs.len(),
{
    if fs.len() == 0 {
        Seq::empty()
    } else {
        frame_bytes(fs.first(), dir) + frames_bytes(fs.drop_first(), dir)
    }
}

/// Parse one frame off the front of `s`: the frame and how many bytes
/// it took.  `None` when the stream does not begin with a complete
/// frame that is well-formed for this direction.
pub open spec fn spec_parse(dir: Direction, s: Seq<u8>) -> Option<(Frame, int)> {
    if s.len() < 1 {
        None
    } else {
        let k = s[0];
        if k == 0 {
            if dir == Direction::ToClient {
                Some((Frame::NewClient, 1int))
            } else {
                None
            }
        } else if k == 1 {
            if s.len() >= 9 {
                Some((Frame::CloseClient { id: be64(s.subrange(1, 9)) }, 9int))
            } else {
                None
            }
        } else if k == 2 {
            Some((Frame::KeepAlive, 1int))
        } else if k == 3 {
            if dir == Direction::ToClient && s.len() >= 13 {
                let n = be32(s.subrange(9, 13)) as int;
                if s.len() >= 13 + n {
                    Some(
                        (
                            Frame::ClientData {
                                id: be64(s.subrange(1, 9)),
                                data: s.subrange(13, 13 + n),
                            },
                            13 + n,
                        ),
                    )
                } else {
                    None
                }
            } else {
                None
            }
        } else if k == 4 {
            if dir == Direction::ToServer && s.len() >= 13 {
                let n = be32(s.subrange(9, 13)) as int;
                if s.len() >= 13 + n {
                    Some(
                        (
                            Frame::ServerData {
                                id: be64(s.subrange(1, 9)),
                                data: s.subrange(13, 13 + n),
                            },
                            13 + n,
                        ),
                    )
                } else {
                    None
                }
            } else {
                None
            }
        } else if k == 5 {
            if s.len() >= 25 {
                Some(
                    (
                        Frame::ClientExceededBuffer {
                            id: be64(s.subrange(1, 9)),
                            micros: be128(s.subrange(9, 25)),
                        },
                        25int,
                    ),
                )
            } else {
                None
            }
        } else if k == 6 {
            if dir == Direction::ToClient {
                if s.len() >= 9 {
                    Some((Frame::Resync { max_id: Some(be64(s.subrange(1, 9))) }, 9int))
                } else {
                    None
                }
            } else {
                Some((Frame::Resync { max_id: None }, 1int))
            }
        } else if k == 7 {
            if s.len() >= 9 {
                Some((Frame::ResyncEcho { max_id: be64(s.subrange(1, 9)) }, 9int))
            } else {
                None
            }
        } else {
            None
        }
    }
}

/// Parse a whole stream into frames; `None` if any point of it is not
/// the start of a complete well-formed frame.
pub open spec fn spec_parse_all(dir: Direction, s: Seq<u8>) -> Option<Seq<Frame>>
    decreases s.len(),
{
    if s.len() == 0 {
        Some(Seq::empty())
    } else {
        match spec_parse(dir, s) {
            None => None,
            Some((f, n)) => if 1 <= n <= s.len() {
                match spec_parse_all(dir, s.skip(n)) {
                    None => None,
                    Some(fs) => Some(seq![f] + fs),
                }
            } else {
                None
            },
        }
    }
}

/// Parsing starts over exactly where one encoded frame ends, whatever
/// follows it.
pub proof fn lemma_parse_one(dir: Direction, f: Frame, rest: Seq<u8>)
    requires
        frame_ok(f, dir),
    ensures
        spec_parse(dir, frame_bytes(f, dir) + rest) == Some((f, frame_bytes(f, dir).len() as int)),
        frame_bytes(f, dir).len() >= 1,
{
    let b = frame_bytes(f, dir);
    let s = b + rest;
    match f {
        Frame::NewClient => {
            assert(s[0] == 0);
        },
        Frame::CloseClient { id } => {
            lemma_be64_round_trip(id);
            assert(s[0] == 1);
            assert(s.subrange(1, 9) =~= be64_bytes(id));
        },
        Frame::KeepAlive => {
            assert(s[0] == 2);
        },
        Frame::ClientData { id, data } => {
            lemma_be64_round_trip(id);
            lemma_be32_round_trip(data.len() as u32);
            assert(s[0] == 3);
            assert(s.subrange(1, 9) =~= be64_bytes(id));
            assert(s.subrange(9, 13) =~= be32_bytes(data.len() as u32));
            let n = be32(s.subrange(9, 13)) as int;
            assert(n == data.len());
            assert(s.subrange(13, 13 + n) =~= data);
        },
        Frame::ServerData { id, data } => {
            lemma_be64_round_trip(id);
            lemma_be32_round_trip(data.len() as u32);
            assert(s[0] == 4);
            assert(s.subrange(1, 9) =~= be64_bytes(id));
            assert(s.subrange(9, 13) =~= be32_bytes(data.len() as u32));
            let n = be32(s.subrange(9, 13)) as int;
            assert(n == data.len());
            assert(s.subrange(13, 13 + n) =~= data);
        },
        Frame::ClientExceededBuffer { id, micros } => {
            lemma_be64_round_trip(id);
            lemma_be128_round_trip(micros);
            assert(s[0] == 5);
            assert(s.subrange(1, 9) =~= be64_bytes(id));
            assert(s.subrange(9, 25) =~= be128_bytes(micros));
        },
        Frame::Resync { max_id } => {
            assert(s[0] == 6);
            match max_id {
                Some(m) => {
                    lemma_be64_round_trip(m);
                    assert(s.subrange(1, 9) =~= be64_bytes(m));
                },
                None => {},
            }
        },
        Frame::ResyncEcho { max_id } => {
            lemma_be64_round_trip(max_id);
            assert(s[0] == 7);
            assert(s.subrange(1, 9) =~= be64_bytes(max_id));
        },
    }
}

/// Frame atomicity: however messages from different channels were
/// interleaved, the byte stream they formed parses back into exactly
/// that sequence of well-formed messages.
pub proof fn lemma_stream_parses(dir: Direction, fs: Seq<Frame>)
    requires
        forall|i: int| 0 <= i < fs.len() ==> frame_ok(#[trigger] fs[i], dir),
    ensures
        spec_parse_all(dir, frames_bytes(fs, dir)) == Some(fs),
    decreases fs.len(),
{
    if fs.len() == 0 {
        assert(frames_bytes(fs, dir) =~= Seq::<u8>::empty());
    } else {
        let f = fs.first();
        let tail = fs.drop_first();
        let rest = frames_bytes(tail, dir);
        let b = frame_bytes(f, dir);
        let s = frames_bytes(fs, dir);
        assert(s == b + rest);
        lemma_parse_one(dir, f, rest);
        assert(forall|i: int| 0 <= i < tail.len() ==> frame_ok(#[trigger] tail[i], dir)) by {
            assert(forall|i: int| 0 <= i < tail.len() ==> tail[i] == fs[i + 1]);
        }
        lemma_stream_parses(dir, tail);
        let n = b.len() as int;
        assert(s.skip(n) =~= rest);
        assert(s.len() >= n >= 1);
        assert(seq![f] + tail =~= fs);
    }
}

/// What the loop reads after one kind byte, before dispatching: the
/// fixed bytes of that kind in that direction.  For a data frame they
/// are the header (channel id and payload length), whose length field
/// then says how much payload follows.  `None` for a kind the loop
/// answers with a resync instead — nothing more is read; the resync's
/// drain swallows whatever the frame carried.
pub open spec fn body_len_spec(kind: PacketType, dir: Direction) -> Option<usize> {
    match kind {
        PacketType::NewClient => if dir == Direction::ToClient {
            Some(0usize)
        } else {
            None
        },
        PacketType::CloseClient => Some(8usize),
        PacketType::KeepAlive => Some(0usize),
        PacketType::ClientData => if dir == Direction::ToClient {
            Some(12usize)
        } else {
            None
        },
        PacketType::ServerData => if dir == Direction::ToServer {
            Some(12usize)
        } else {
            None
        },
        PacketType::ClientExceededBuffer => Some(24usize),
        PacketType::Resync => if dir == Direction::ToClient {
            Some(8usize)
        } else {
            Some(0usize)
        },
        PacketType::ResyncEcho => None,
    }
}

/// What the loop reads after one kind byte, before dispatching.
pub fn body_len(kind: PacketType, dir: Direction) -> (r: Option<usize>)
    ensures
        r == body_len_spec(kind, dir),
{
    match kind {
        PacketType::NewClient => if dir == Direction::ToClient {
            Some(0)
        } else {
            None
        },
        PacketType::CloseClient => Some(8),
        PacketType::KeepAlive => Some(0),
        PacketType::ClientData => if dir == Direction::ToClient {
            Some(12)
        } else {
            None
        },
        PacketType::ServerData => if dir == Direction::ToServer {
            Some(12)
        } else {
            None
        },
        PacketType::ClientExceededBuffer => Some(24),
        PacketType::Resync => if dir == Direction::ToClient {
            Some(8)
        } else {
            Some(0)
        },
        PacketType::ResyncEcho => None,
    }
}

/// The read schedule agrees with the grammar: for every frame that
/// may travel in a direction and that the loop does not turn away,
/// the kind byte, the scheduled bytes and — for a data frame — the
/// payload its length field declares are together the whole frame.
pub proof fn lemma_body_len_grammar(f: Frame, dir: Direction)
    requires
        frame_ok(f, dir),
        body_len_spec(frame_kind(f), dir) is Some,
    ensures
        ({
            let n = body_len_spec(frame_kind(f), dir)->0;
            match f {
                Frame::ClientData { data, .. } => frame_bytes(f, dir).len() == 1 + n + data.len(),
                Frame::ServerData { data, .. } => frame_bytes(f, dir).len() == 1 + n + data.len(),
                _ => frame_bytes(f, dir).len() == 1 + n,
            }
        }),
{
}

/// Parse a whole byte stream into its messages: the executable form
/// of `spec_parse_all`, and so of frame atomicity — a stream a
/// well-behaved peer wrote comes back as exactly the messages that
/// went in.  `None` as soon as any point of the stream is not the
/// start of a complete well-formed frame.
pub fn parse_stream(dir: Direction, s: &[u8]) -> (r: Option<Vec<Packet>>)
    ensures
        match r {
            None => spec_parse_all(dir, s@) is None,
            Some(ps) => spec_parse_all(dir, s@) == Some(
                Seq::new(ps@.len(), |i: int| ps@[i]@),
            ),
        },
{
    let mut out: Vec<Packet> = Vec::new();
    let mut at: usize = 0;
    proof {
        assert(s@.skip(0) =~= s@);
        if spec_parse_all(dir, s@) is Some {
            let rest = spec_parse_all(dir, s@)->0;
            assert(Seq::new(0, |i: int| out@[i]@) + rest =~= rest);
        }
    }
    loop
        invariant
            at <= s@.len(),
            ({
                let tail = spec_parse_all(dir, s@.skip(at as int));
                let whole = spec_parse_all(dir, s@);
                match tail {
                    None => whole is None,
                    Some(rest) => whole == Some(
                        Seq::new(out@.len(), |i: int| out@[i]@) + rest,
                    ),
                }
            }),
        decreases s@.len() - at,
    {
        if at == s.len() {
            proof {
                assert(s@.skip(at as int) =~= Seq::<u8>::empty());
                assert(Seq::new(out@.len(), |i: int| out@[i]@) + Seq::<Frame>::empty()
                    =~= Seq::new(out@.len(), |i: int| out@[i]@));
            }
            return Some(out);
        }
        let suffix = vstd::slice::slice_subrange(s, at, s.len());
        match Packet::parse(dir, suffix) {
            None => {
                return None;
            },
            Some((p, n)) => {
                let ghost pre_out = out@;
                proof {
                    assert(1 <= n <= suffix@.len());
                    assert(s@.skip(at as int).skip(n as int) =~= s@.skip(at + n));
                }
                out.push(p);
                at = at + n;
                proof {
                    let ghost mapped = Seq::new(out@.len(), |i: int| out@[i]@);
                    let ghost pre_mapped = Seq::new(pre_out.len(), |i: int| pre_out[i]@);
                    assert(mapped =~= pre_mapped + seq![p@]);
                    if spec_parse_all(dir, s@.skip(at as int)) is Some {
                        let rest = spec_parse_all(dir, s@.skip(at as int))->0;
                        assert(pre_mapped + (seq![p@] + rest) =~= mapped + rest);
                    }
                }
            },
        }
    }
}

/// The bytes a frame carries for channel `c`: the payload of a data
/// frame addressed to `c`, nothing otherwise.
pub open spec fn frame_payload_for(f: Frame, c: u64) -> Seq<u8> {
    match f {
        Frame::ClientData { id, data } => if id == c {
            data
        } else {
            Seq::empty()
        },
        Frame::ServerData { id, data } => if id == c {
            data
        } else {
            Seq::empty()
        },
        _ => Seq::empty(),
    }
}

/// All bytes a frame sequence carries for channel `c`, in order.
pub open spec fn channel_payload(fs: Seq<Frame>, c: u64) -> Seq<u8>
    decreases fs.len(),
{
    if fs.len() == 0 {
        Seq::empty()
    } else {
        frame_payload_for(fs.first(), c) + channel_payload(fs.drop_first(), c)
    }
}

/// The per-channel projection distributes over concatenation of frame
/// sequences.
pub proof fn lemma_channel_payload_append(a: Seq<Frame>, b: Seq<Frame>, c: u64)
    ensures
        channel_payload(a + b, c) == channel_payload(a, c) + channel_payload(b, c),
    decreases a.len(),
{
    if a.len() == 0 {
        assert(a + b =~= b);
        assert(channel_payload(a, c) + channel_payload(b, c) =~= channel_payload(b, c));
    } else {
        assert((a + b).first() == a.first());
        assert((a + b).drop_first() =~= a.drop_first() + b);
        lemma_channel_payload_append(a.drop_first(), b, c);
        assert(channel_payload(a + b, c) =~= channel_payload(a, c) + channel_payload(b, c));
    }
}

/// Order preservation per channel: the peer that parses the control
/// stream recovers, for every channel, exactly the bytes submitted on
/// that channel, in order, whatever other traffic was interleaved.
pub proof fn lemma_order_preserved(dir: Direction, fs: Seq<Frame>, c: u64)
    requires
        forall|i: int| 0 <= i < fs.len() ==> frame_ok(#[trigger] fs[i], dir),
    ensures
        spec_parse_all(dir, frames_bytes(fs, dir)) is Some,
        channel_payload(spec_parse_all(dir, frames_bytes(fs, dir))->0, c) == channel_payload(
            fs,
            c,
        ),
{
    lemma_stream_parses(dir, fs);
}

/// A frame-aligned prefix of the stream delivers, on every channel, a
/// prefix of what the whole stream delivers.
pub proof fn lemma_prefix_delivery(fs: Seq<Frame>, k: int, c: u64)
    requires
        0 <= k <= fs.len(),
    ensures
        channel_payload(fs.take(k), c).is_prefix_of(channel_payload(fs, c)),
{
    assert(fs.take(k) + fs.skip(k) =~= fs);
    lemma_channel_payload_append(fs.take(k), fs.skip(k), c);
}

/// Append a copy of `data` to `out`.
pub fn push_bytes(out: &mut Vec<u8>, data: &[u8])
    ensures
        final(out)@ == old(out)@ + data@,
{
    let mut i: usize = 0;
    while i < data.len()
        invariant
            i <= data@.len(),
            out@ == old(out)@ + data@.subrange(0, i as int),
        decreases data@.len() - i,
    {
        out.push(data[i]);
        i = i + 1;
        proof {
            assert(out@ =~= old(out)@ + data@.subrange(0, i as int));
        }
    }
    proof {
        assert(out@ =~= old(out)@ + data@);
    }
}

/// A copy of `s[from..to]`.
pub fn copy_range(s: &[u8], from: usize, to: usize) -> (r: Vec<u8>)
    requires
        from <= to <= s@.len(),
    ensures
        r@ == s@.subrange(from as int, to as int),
{
    let mut out: Vec<u8> = Vec::new();
    let mut i: usize = from;
    while i < to
        invariant
            from <= i <= to <= s@.len(),
            out@ == s@.subrange(from as int, i as int),
        decreases to - i,
    {
        out.push(s[i]);
        i = i + 1;
        proof {
            assert(out@ =~= s@.subrange(from as int, i as int));
        }
    }
    out
}

impl Packet {
    /// The kind of this message.
    pub fn kind(&self) -> (r: PacketType)
        ensures
            r == self.kind_spec(),
            r == frame_kind(self@),
    {
        match self {
            Packet::NewClient => PacketType::NewClient,
            Packet::CloseClient { .. } => PacketType::CloseClient,
            Packet::KeepAlive => PacketType::KeepAlive,
            Packet::ClientData { .. } => PacketType::ClientData,
            Packet::ServerData { .. } => PacketType::ServerData,
            Packet::ClientExceededBuffer { .. } => PacketType::ClientExceededBuffer,
            Packet::Resync { .. } => PacketType::Resync,
            Packet::ResyncEcho { .. } => PacketType::ResyncEcho,
        }
    }

    /// The kind of this message.
    pub open spec fn kind_spec(&self) -> PacketType {
        match self {
            Packet::NewClient => PacketType::NewClient,
            Packet::CloseClient { .. } => PacketType::CloseClient,
            Packet::KeepAlive => PacketType::KeepAlive,
            Packet::ClientData { .. } => PacketType::ClientData,
            Packet::ServerData { .. } => PacketType::ServerData,
            Packet::ClientExceededBuffer { .. } => PacketType::ClientExceededBuffer,
            Packet::Resync { .. } => PacketType::Resync,
            Packet::ResyncEcho { .. } => PacketType::ResyncEcho,
        }
    }

    /// Encode this message for the wire, header and payload as one
    /// byte block, so a single buffered write keeps the frame atomic.
    pub fn encode(&self, dir: Direction) -> (r: Vec<u8>)
        requires
            frame_ok(self@, dir),
        ensures
            r@ == frame_bytes(self@, dir),
            r@.len() >= 1,
    {
        let mut out: Vec<u8> = Vec::new();
        out.push(self.kind().ordinal());
        match self {
            Packet::NewClient => {},
            Packet::CloseClient { id } => {
                push_u64_be(&mut out, *id);
            },
            Packet::KeepAlive => {},
            Packet::ClientData { id, data } => {
                push_u64_be(&mut out, *id);
                push_u32_be(&mut out, data.len() as u32);
                push_bytes(&mut out, data.as_slice());
            },
            Packet::ServerData { id, data } => {
                push_u64_be(&mut out, *id);
                push_u32_be(&mut out, data.len() as u32);
                push_bytes(&mut out, data.as_slice());
            },
            Packet::ClientExceededBuffer { id, micros } => {
                push_u64_be(&mut out, *id);
                push_u128_be(&mut out, *micros);
            },
            Packet::Resync { max_id } => {
                match max_id {
                    Some(m) => {
                        push_u64_be(&mut out, *m);
                    },
                    None => {},
                }
            },
            Packet::ResyncEcho { max_id } => {
                push_u64_be(&mut out, *max_id);
            },
        }
        proof {
            assert(out@ =~= frame_bytes(self@, dir));
        }
        out
    }

    /// Parse one message off the front of `s`, with the count of bytes
    /// it occupied; `None` when no complete well-formed message starts
    /// the stream.
    pub fn parse(dir: Direction, s: &[u8]) -> (r: Option<(Packet, usize)>)
        ensures
            match r {
                None => spec_parse(dir, s@) is None,
                Some((p, n)) => spec_parse(dir, s@) == Some((p@, n as int)),
            },
    {
        if s.len() < 1 {
            return None;
        }
        let k = s[0];
        match PacketType::from_ordinal(k) {
            None => None,
            Some(PacketType::NewClient) => {
                if dir == Direction::ToClient {
                    Some((Packet::NewClient, 1))
                } else {
                    None
                }
            },
            Some(PacketType::CloseClient) => {
                if s.len() >= 9 {
                    let id = decode_u64_be(copy_range(s, 1, 9).as_slice());
                    Some((Packet::CloseClient { id }, 9))
                } else {
                    None
                }
            },
            Some(PacketType::KeepAlive) => Some((Packet::KeepAlive, 1)),
            Some(PacketType::ClientData) => {
                if dir == Direction::ToClient && s.len() >= 13 {
                    let id = decode_u64_be(copy_range(s, 1, 9).as_slice());
                    let n = decode_u32_be(copy_range(s, 9, 13).as_slice()) as usize;
                    if s.len() >= 13 && n <= s.len() - 13 {
                        let data = copy_range(s, 13, 13 + n);
                        Some((Packet::ClientData { id, data }, 13 + n))
                    } else {
                        None
                    }
                } else {
                    None
                }
            },
            Some(PacketType::ServerData) => {
                if dir == Direction::ToServer && s.len() >= 13 {
                    let id = decode_u64_be(copy_range(s, 1, 9).as_slice());
                    let n = decode_u32_be(copy_range(s, 9, 13).as_slice()) as usize;
                    if s.len() >= 13 && n <= s.len() - 13 {
                        let data = copy_range(s, 13, 13 + n);
                        Some((Packet::ServerData { id, data }, 13 + n))
                    } else {
                        None
                    }
                } else {
                    None
                }
            },
            Some(PacketType::ClientExceededBuffer) => {
                if s.len() >= 25 {
                    let id = decode_u64_be(copy_range(s, 1, 9).as_slice());
                    let micros = decode_u128_be(copy_range(s, 9, 25).as_slice());
                    Some((Packet::ClientExceededBuffer { id, micros }, 25))
                } else {
                    None
                }
            },
            Some(PacketType::Resync) => {
                if dir == Direction::ToClient {
                    if s.len() >= 9 {
                        let m = decode_u64_be(copy_range(s, 1, 9).as_slice());
                        Some((Packet::Resync { max_id: Some(m) }, 9))
                    } else {
                        None
                    }
                } else {
                    Some((Packet::Resync { max_id: None }, 1))
                }
            },
            Some(PacketType::ResyncEcho) => {
                if s.len() >= 9 {
                    let m = decode_u64_be(copy_range(s, 1, 9).as_slice());
                    Some((Packet::ResyncEcho { max_id: m }, 9))
                } else {
                    None
                }
            },
        }
    }
}

} // verus!
