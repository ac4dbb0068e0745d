//! What two peers send each other: the kinds of message, and their frames.
use crate::bytes::{le_bytes_u128, le_value_u128, push_u128, read_u128};
use crate::game::GameInfo;
use crate::tetromino::{Geometry, Pose};
use crate::{Cli, Mode};
use vstd::prelude::*;

verus! {

/// The length of every frame, on both channels.
pub const FRAME_LEN: usize = 64;

/// The length of what a frame carries behind its kind.
pub const PAYLOAD_LEN: usize = 63;

/// Why received bytes are refused.
#[derive(Clone, Copy, Debug, PartialEq, Eq, Structural)]
pub enum WireError {
    /// The frame does not have the length of a frame; holds the length it has.
    Length(usize),
    /// The first byte of the frame is no kind of message; holds the byte.
    Kind(u8),
    /// The first byte of a geometry is no facing; holds the byte.
    Direction(u8),
    /// The geometry cannot be the pose of the peer's falling piece.
    OutOfField,
}

/// The kinds of message on the best-effort channel.
#[derive(Clone, Copy, Debug, PartialEq, Eq, Structural)]
pub enum UdpPacketMode {
    Pos,
}

/// The kinds of message on the reliable channel.
#[derive(Clone, Copy, Debug, PartialEq, Eq, Structural)]
pub enum TcpPacketMode {
    Ping,
    Pong,
    Info,
    Hold,
    Place,
}

/// The part a process plays in a session.
#[derive(Clone, Copy, Debug, PartialEq, Eq, Structural)]
pub enum ConnKind {
    Host,
    Client,
    Empty,
}

impl ConnKind {
    /// The part that the arguments ask for: in a multiplayer game the client
    /// where `join` is set and the host where it is not; no part in another game.
    pub open spec fn spec_from_args(args: &Cli) -> ConnKind {
        if args.mode == Mode::Multiplayer {
            if args.join {
                ConnKind::Client
            } else {
                ConnKind::Host
            }
        } else {
            ConnKind::Empty
        }
    }

    /// The part that the arguments ask for.
    pub fn from_args(args: &Cli) -> (kind: ConnKind)
        ensures
            kind == ConnKind::spec_from_args(args),
    {
        match args.mode {
            Mode::Multiplayer => {
                if args.join {
                    ConnKind::Client
                } else {
                    ConnKind::Host
                }
            },
            _ => ConnKind::Empty,
        }
    }

    /// Whether this side plays with the first of the seeds: every side but a client.
    pub open spec fn spec_is_host(self) -> bool {
        self != ConnKind::Client
    }

    /// Whether this side plays with the first of the seeds.
    pub fn is_host(self) -> (host: bool)
        ensures
            host == self.spec_is_host(),
    {
        match self {
            ConnKind::Client => false,
            _ => true,
        }
    }
}

impl UdpPacketMode {
    /// The byte that stands for this kind.
    pub open spec fn code(self) -> u8 {
        0
    }

    /// The byte that stands for this kind.
    pub fn to_u8(self) -> (byte: u8)
        ensures
            byte == self.code(),
    {
        0
    }

    /// The kind that `byte` stands for, if any.
    pub fn from_u8(byte: u8) -> (mode: Option<UdpPacketMode>)
        ensures
            byte == 0 ==> mode == Some(UdpPacketMode::Pos),
            byte != 0 ==> mode is None,
    {
        match byte {
            0 => Some(UdpPacketMode::Pos),
            _ => None,
        }
    }
}

impl TcpPacketMode {
    /// The byte that stands for this kind.
    pub open spec fn code(self) -> u8 {
        match self {
            TcpPacketMode::Ping => 0,
            TcpPacketMode::Pong => 1,
            TcpPacketMode::Info => 2,
            TcpPacketMode::Hold => 3,
            TcpPacketMode::Place => 4,
        }
    }

    /// The kind that `byte` stands for, for a byte up to 4.
    pub open spec fn of_code(byte: u8) -> TcpPacketMode {
        if byte == 0 {
            TcpPacketMode::Ping
        } else if byte == 1 {
            TcpPacketMode::Pong
        } else if byte == 2 {
            TcpPacketMode::Info
        } else if byte == 3 {
            TcpPacketMode::Hold
        } else {
            TcpPacketMode::Place
        }
    }

    /// The byte that stands for this kind.
    pub fn to_u8(self) -> (byte: u8)
        ensures
            byte == self.code(),
    {
        match self {
            TcpPacketMode::Ping => 0,
            TcpPacketMode::Pong => 1,
            TcpPacketMode::Info => 2,
            TcpPacketMode::Hold => 3,
            TcpPacketMode::Place => 4,
        }
    }

    /// The kind that `byte` stands for, if any.
    pub fn from_u8(byte: u8) -> (mode: Option<TcpPacketMode>)
        ensures
            byte <= 4 ==> mode == Some(TcpPacketMode::of_code(byte)),
            byte > 4 ==> mode is None,
    {
        match byte {
            0 => Some(TcpPacketMode::Ping),
            1 => Some(TcpPacketMode::Pong),
            2 => Some(TcpPacketMode::Info),
            3 => Some(TcpPacketMode::Hold),
            4 => Some(TcpPacketMode::Place),
            _ => None,
        }
    }
}

/// The frame of a message: its kind, what it carries, and zeros up to the
/// length of a frame.
pub open spec fn spec_frame(kind: u8, payload: Seq<u8>) -> Seq<u8> {
    seq![kind] + payload + Seq::new((PAYLOAD_LEN - payload.len()) as nat, |i: int| 0u8)
}

/// What a frame carries behind its kind.
pub open spec fn spec_payload(frame: Seq<u8>) -> Seq<u8> {
    frame.subrange(1, FRAME_LEN as int)
}

/// The frame of a message of kind `kind` that carries `payload`.
pub fn frame(kind: u8, payload: &[u8]) -> (bytes: Vec<u8>)
    requires
        payload@.len() <= PAYLOAD_LEN,
    ensures
        bytes@ == spec_frame(kind, payload@),
        bytes@.len() == FRAME_LEN,
{
    let mut bytes: Vec<u8> = Vec::new();
    bytes.push(kind);
    let mut i: usize = 0;
    while i < payload.len()
        invariant
            i <= payload@.len() <= PAYLOAD_LEN,
            bytes@ == seq![kind] + payload@.take(i as int),
        decreases payload@.len() - i,
    {
        bytes.push(payload[i]);
        i += 1;
        assert(bytes@ =~= seq![kind] + payload@.take(i as int));
    }
    assert(payload@.take(payload@.len() as int) =~= payload@);
    while bytes.len() < FRAME_LEN
        invariant
            payload@.len() <= PAYLOAD_LEN,
            1 + payload@.len() <= bytes@.len() <= FRAME_LEN,
            bytes@ == seq![kind] + payload@ + Seq::new(
                (bytes@.len() - 1 - payload@.len()) as nat,
                |i: int| 0u8,
            ),
        decreases FRAME_LEN - bytes@.len(),
    {
        bytes.push(0);
        assert(bytes@ =~= seq![kind] + payload@ + Seq::new(
            (bytes@.len() - 1 - payload@.len()) as nat,
            |i: int| 0u8,
        ));
    }
    bytes
}

/// What a frame carries behind its kind.
pub fn payload(frame: &[u8]) -> (carried: [u8; 63])
    requires
        frame@.len() == FRAME_LEN,
    ensures
        carried@ == spec_payload(frame@),
{
    let mut carried: [u8; 63] = [0u8; 63];
    let mut i: usize = 0;
    while i < PAYLOAD_LEN
        invariant
            i <= PAYLOAD_LEN,
            frame@.len() == FRAME_LEN,
            forall|k: int| 0 <= k < i ==> carried@[k] == frame@[k + 1],
        decreases PAYLOAD_LEN - i,
    {
        carried[i] = frame[i + 1];
        i += 1;
    }
    assert(carried@ =~= spec_payload(frame@));
    carried
}

/// The geometry at the start of what a frame carries, or the reason there is none.
pub open spec fn spec_carried_geometry(carried: Seq<u8>) -> Result<Pose, WireError> {
    if carried[0] <= 3 {
        Ok(Pose::decoded(carried.subrange(0, 41)))
    } else {
        Err(WireError::Direction(carried[0]))
    }
}

/// The geometry at the start of what a frame carries.
pub fn carried_geometry(carried: &[u8; 63]) -> (geometry: Result<Geometry, WireError>)
    ensures
        match geometry {
            Ok(geometry) => spec_carried_geometry(carried@) == Ok::<Pose, WireError>(geometry@),
            Err(error) => spec_carried_geometry(carried@) == Err::<Pose, WireError>(error),
        },
{
    let mut bytes: [u8; 41] = [0u8; 41];
    let mut i: usize = 0;
    while i < 41
        invariant
            i <= 41,
            forall|k: int| 0 <= k < i ==> bytes@[k] == carried@[k],
        decreases 41 - i,
    {
        bytes[i] = carried[i];
        i += 1;
    }
    assert(bytes@ =~= carried@.subrange(0, 41));
    Geometry::from_bytes(bytes)
}

/// The kind and the payload of a frame received on the reliable channel, or
/// the reason it is refused: it has not the length of a frame, or its first
/// byte is no kind of message.
pub open spec fn spec_parse_tcp(frame: Seq<u8>) -> Result<(TcpPacketMode, Seq<u8>), WireError> {
    if frame.len() != FRAME_LEN {
        Err(WireError::Length(frame.len() as usize))
    } else if frame[0] > 4 {
        Err(WireError::Kind(frame[0]))
    } else {
        Ok((TcpPacketMode::of_code(frame[0]), spec_payload(frame)))
    }
}

/// The kind and the payload of a frame received on the best-effort channel,
/// or the reason it is refused.
pub open spec fn spec_parse_udp(frame: Seq<u8>) -> Result<(UdpPacketMode, Seq<u8>), WireError> {
    if frame.len() != FRAME_LEN {
        Err(WireError::Length(frame.len() as usize))
    } else if frame[0] != 0 {
        Err(WireError::Kind(frame[0]))
    } else {
        Ok((UdpPacketMode::Pos, spec_payload(frame)))
    }
}

/// Takes a frame received on the reliable channel apart.
pub fn parse_tcp(frame: &[u8]) -> (parsed: Result<(TcpPacketMode, [u8; 63]), WireError>)
    ensures
        match parsed {
            Ok((mode, carried)) => spec_parse_tcp(frame@) == Ok::<
                (TcpPacketMode, Seq<u8>),
                WireError,
            >((mode, carried@)),
            Err(error) => spec_parse_tcp(frame@) == Err::<(TcpPacketMode, Seq<u8>), WireError>(
                error,
            ),
        },
{
    if frame.len() != FRAME_LEN {
        return Err(WireError::Length(frame.len()));
    }
    match TcpPacketMode::from_u8(frame[0]) {
        Some(mode) => Ok((mode, payload(frame))),
        None => Err(WireError::Kind(frame[0])),
    }
}

/// Takes a frame received on the best-effort channel apart.
pub fn parse_udp(frame: &[u8]) -> (parsed: Result<(UdpPacketMode, [u8; 63]), WireError>)
    ensures
        match parsed {
            Ok((mode, carried)) => spec_parse_udp(frame@) == Ok::<
                (UdpPacketMode, Seq<u8>),
                WireError,
            >((mode, carried@)),
            Err(error) => spec_parse_udp(frame@) == Err::<(UdpPacketMode, Seq<u8>), WireError>(
                error,
            ),
        },
{
    if frame.len() != FRAME_LEN {
        return Err(WireError::Length(frame.len()));
    }
    match UdpPacketMode::from_u8(frame[0]) {
        Some(mode) => Ok((mode, payload(frame))),
        None => Err(WireError::Kind(frame[0])),
    }
}

/// The frame that tells the peer where the falling piece is.
pub fn pos_frame(geometry: &Geometry) -> (bytes: Vec<u8>)
    ensures
        bytes@ == spec_frame(UdpPacketMode::Pos.code(), geometry@.encoded()),
        bytes@.len() == FRAME_LEN,
{
    let carried = geometry.to_bytes();
    frame(UdpPacketMode::Pos.to_u8(), carried.as_slice())
}

/// The frame that tells the peer where the falling piece was committed.
pub fn place_frame(geometry: &Geometry) -> (bytes: Vec<u8>)
    ensures
        bytes@ == spec_frame(TcpPacketMode::Place.code(), geometry@.encoded()),
        bytes@.len() == FRAME_LEN,
{
    let carried = geometry.to_bytes();
    frame(TcpPacketMode::Place.to_u8(), carried.as_slice())
}

/// The frame that tells the peer that the falling piece was put on hold.
pub fn hold_frame() -> (bytes: Vec<u8>)
    ensures
        bytes@ == spec_frame(TcpPacketMode::Hold.code(), Seq::empty()),
        bytes@.len() == FRAME_LEN,
{
    let carried: Vec<u8> = Vec::new();
    frame(TcpPacketMode::Hold.to_u8(), carried.as_slice())
}

/// The frame that asks the peer to answer: it carries the time it is sent
/// at, in milliseconds.
pub fn ping_frame(now: u128) -> (bytes: Vec<u8>)
    ensures
        bytes@ == spec_frame(TcpPacketMode::Ping.code(), le_bytes_u128(now as int)),
        bytes@.len() == FRAME_LEN,
{
    let mut carried: Vec<u8> = Vec::new();
    push_u128(&mut carried, now);
    assert(carried@ =~= le_bytes_u128(now as int));
    frame(TcpPacketMode::Ping.to_u8(), carried.as_slice())
}

/// The frame that answers a ping: it carries what the ping carried.
pub fn pong_frame(carried: &[u8; 63]) -> (bytes: Vec<u8>)
    ensures
        bytes@ == spec_frame(TcpPacketMode::Pong.code(), carried@),
        bytes@.len() == FRAME_LEN,
{
    frame(TcpPacketMode::Pong.to_u8(), carried.as_slice())
}

/// The frame that tells the client the start level and the seeds.
pub fn info_frame(game_info: &GameInfo) -> (bytes: Vec<u8>)
    requires
        game_info.seeds@.len() <= 7,
    ensures
        bytes@ == spec_frame(TcpPacketMode::Info.code(), game_info.spec_to_bytes()),
        bytes@.len() == FRAME_LEN,
{
    let carried = game_info.to_bytes();
    frame(TcpPacketMode::Info.to_u8(), carried.as_slice())
}

/// The time that a pong carries back, in milliseconds.
pub open spec fn spec_pong_time(carried: Seq<u8>) -> int {
    le_value_u128(carried.subrange(0, 16))
}

/// How long the answer to a ping took: the time from when it was sent, which
/// the pong carries back, to `now`; nothing where `now` is the earlier.
pub open spec fn spec_round_trip(carried: Seq<u8>, now: u128) -> int {
    if now >= spec_pong_time(carried) {
        now - spec_pong_time(carried)
    } else {
        0
    }
}

/// A pong carries back the time that the ping was sent at.
pub proof fn lemma_pong_carries_the_time(now: u128)
    ensures
        spec_pong_time(
            spec_payload(spec_frame(TcpPacketMode::Pong.code(), le_bytes_u128(now as int))),
        ) == now,
        spec_pong_time(
            spec_payload(
                spec_frame(
                    TcpPacketMode::Pong.code(),
                    spec_payload(spec_frame(TcpPacketMode::Ping.code(), le_bytes_u128(now as int))),
                ),
            ),
        ) == now,
{
    crate::bytes::lemma_u128_round_trip(now as int);
    let time = le_bytes_u128(now as int);
    let ping = spec_frame(TcpPacketMode::Ping.code(), time);
    let carried = spec_payload(ping);
    let pong = spec_frame(TcpPacketMode::Pong.code(), carried);
    assert(carried.subrange(0, 16) =~= time);
    assert(spec_payload(pong) =~= carried);
    assert(spec_payload(spec_frame(TcpPacketMode::Pong.code(), time)).subrange(0, 16) =~= time);
}

/// How long the answer to a ping took, in milliseconds.
pub fn round_trip(carried: &[u8; 63], now: u128) -> (elapsed: u128)
    ensures
        elapsed == spec_round_trip(carried@, now),
{
    let sent = read_u128(carried.as_slice(), 0);
    if now >= sent {
        now - sent
    } else {
        0
    }
}

} // verus!
