//! The messages exchanged between clients, client threads and the server
//! thread, and the length-prefixed framing that carries them on the wire.
//!
//! A frame is a four-byte little-endian length followed by that many payload
//! bytes; a receiver refuses a frame whose announced length is over
//! `MAX_MESSAGE_LEN`.

use crate::data::PlayerSerialize;
use crate::error::TBGError;
use vstd::prelude::*;

verus! {

/// Message to be sent during lobby phase.
/// Can be sent by and to anyone
/// `T` must be an enum.
#[derive(Debug, Clone, PartialEq)]
pub enum StartMessage<T> {
    Join(String),
    VoteStart(bool),
    Exit,
    Custom(T),
}

/// Types of messages client will send to server.
/// `T` must be a struct.
#[derive(Debug, Clone, PartialEq)]
pub enum ServerMessage<T> {
    PlayerAction(T),
    /// Player telling server that it's leaving
    Exit,
}

/// Types of messages that client threads will send to main server thread.
/// `T` must be an enum.
#[derive(Debug, Clone, PartialEq)]
pub enum InternalMessage<T> {
    /// Information of a player leaving the game
    PlayerLeft(String),
    /// Tells player that join request is accepted
    AcceptClient(String),
    RejectClient(String),
    /// Server timing out client and forced to lose a die
    TimeOutClient(String),
    /// Tells client that another player has voted
    VoteStart(String, bool),
    /// Server kicking client
    Kick(String),
    Custom(T),
}

/// Types of messages server will send to client threads whom will then
/// propagate it to their clients.
/// `T` must be a struct.
/// `U` must be an enum.
#[derive(Debug, Clone, PartialEq)]
pub enum ClientMessage<T: Clone, U: Clone> {
    SendAll(Vec<PlayerSerialize<T>>),
    /// Information that a player has won
    PlayerWon(String),
    /// Information that it's a new player's turn
    PlayerTurn(String),
    /// Information of a player leaving the game
    PlayerLeft(String),
    /// Information that game started
    StartGame,
    /// Tells player that his name is invalid/taken
    RejectClient(String),
    /// Tells player that join request is accepted
    AcceptClient(String),
    /// Server timing out client and forced to lose a die
    TimeOutClient(String),
    /// Tells client that another player has voted
    VoteStart(String, bool, u8, u8),
    /// Server kicking client
    Kick(String),
    Custom(U),
}

/// Largest payload, in bytes, that a receiver accepts in one frame.
pub const MAX_MESSAGE_LEN: usize = 1024;

/// Number of bytes of the length header in front of every payload.
pub const HEADER_LEN: usize = 4;

/// The four little-endian bytes of `n` (`n < 2^32`).
pub open spec fn le_bytes(n: nat) -> Seq<u8> {
    seq![
        (n % 256) as u8,
        ((n / 256) % 256) as u8,
        ((n / 65536) % 256) as u8,
        ((n / 16777216) % 256) as u8,
    ]
}

/// The number that the first four bytes of `b` encode, little-endian.
pub open spec fn le_value(b: Seq<u8>) -> nat {
    (b[0] + 256 * b[1] + 65536 * b[2] + 16777216 * b[3]) as nat
}

/// A payload on the wire: its length, then its bytes.
pub open spec fn frame(payload: Seq<u8>) -> Seq<u8> {
    le_bytes(payload.len()) + payload
}

/// What a receiver makes of a four-byte length header.
pub open spec fn header_result(header: Seq<u8>) -> Result<usize, TBGError> {
    let n = le_value(header);
    if n > MAX_MESSAGE_LEN {
        Err(TBGError::MessageOverflow(n as usize))
    } else {
        Ok(n as usize)
    }
}

/// What a receiver makes of the bytes `bytes` that start a frame: the
/// payload, or why there is none.
pub open spec fn unframe(bytes: Seq<u8>) -> Result<Seq<u8>, TBGError> {
    if bytes.len() < HEADER_LEN {
        Err(TBGError::DataStreamEarlyEOF)
    } else {
        match header_result(bytes.take(4)) {
            Err(e) => Err(e),
            Ok(n) => if bytes.len() < HEADER_LEN + n {
                Err(TBGError::DataStreamEarlyEOF)
            } else {
                Ok(bytes.subrange(4, 4 + n))
            },
        }
    }
}

/// Decoding a header gives back the number that was encoded.
pub proof fn lemma_le_round_trip(n: nat)
    requires
        n <= u32::MAX,
    ensures
        le_value(le_bytes(n)) == n,
        le_bytes(n).len() == 4,
{
    let b = le_bytes(n);
    assert(b[0] == n % 256);
    assert(b[1] == (n / 256) % 256);
    assert(b[2] == (n / 65536) % 256);
    assert(b[3] == (n / 16777216) % 256);
    assert(n == n % 256 + 256 * ((n / 256) % 256) + 65536 * ((n / 65536) % 256) + 16777216 * ((
    n / 16777216) % 256)) by (nonlinear_arith)
        requires
            n <= u32::MAX,
    ;
}

/// Frames a serialized message: the payload's length as four
/// little-endian bytes, then the payload.
pub fn frame_message(payload: &[u8]) -> (framed: Vec<u8>)
    requires
        payload@.len() <= u32::MAX,
    ensures
        framed@ == frame(payload@),
{
    let length: usize = payload.len();
    let mut framed: Vec<u8> = Vec::with_capacity(length);
    framed.push((length % 256) as u8);
    framed.push(((length / 256) % 256) as u8);
    framed.push(((length / 65536) % 256) as u8);
    framed.push(((length / 16777216) % 256) as u8);
    assert(framed@ =~= le_bytes(length as nat));
    let mut i: usize = 0;
    while i < length
        invariant
            i <= length,
            length == payload@.len(),
            framed@ =~= le_bytes(length as nat) + payload@.take(i as int),
        decreases length - i,
    {
        framed.push(payload[i]);
        i = i + 1;
        assert(framed@ =~= le_bytes(length as nat) + payload@.take(i as int));
    }
    assert(payload@.take(length as int) =~= payload@);
    framed
}

/// Reads the payload length from a four-byte frame header, refusing one
/// over `MAX_MESSAGE_LEN`.
pub fn frame_length(header: &[u8]) -> (result: Result<usize, TBGError>)
    requires
        header@.len() == HEADER_LEN,
    ensures
        result == header_result(header@),
{
    let n: u32 = header[0] as u32 + 256 * (header[1] as u32) + 65536 * (header[2] as u32)
        + 16777216 * (header[3] as u32);
    if n as usize > MAX_MESSAGE_LEN {
        Err(TBGError::MessageOverflow(n as usize))
    } else {
        Ok(n as usize)
    }
}

/// Takes the payload out of the bytes that start a frame.
pub fn unframe_message(bytes: &[u8]) -> (result: Result<Vec<u8>, TBGError>)
    ensures
        match result {
            Ok(payload) => unframe(bytes@) == Ok::<Seq<u8>, TBGError>(payload@),
            Err(e) => unframe(bytes@) == Err::<Seq<u8>, TBGError>(e),
        },
{
    if bytes.len() < HEADER_LEN {
        return Err(TBGError::DataStreamEarlyEOF);
    }
    let header = vstd::slice::slice_subrange(bytes, 0, HEADER_LEN);
    assert(header@ =~= bytes@.take(4));
    let n = match frame_length(header) {
        Err(e) => return Err(e),
        Ok(n) => n,
    };
    if bytes.len() - HEADER_LEN < n {
        return Err(TBGError::DataStreamEarlyEOF);
    }
    let body = vstd::slice::slice_subrange(bytes, HEADER_LEN, HEADER_LEN + n);
    Ok(vstd::slice::slice_to_vec(body))
}

/// Unframing what was framed gives the payload back, or refuses it as
/// too long when it is over `MAX_MESSAGE_LEN`; bytes that follow the frame
/// are left alone.
pub proof fn lemma_frame_round_trip(payload: Seq<u8>, rest: Seq<u8>)
    requires
        payload.len() <= u32::MAX,
    ensures
        payload.len() <= MAX_MESSAGE_LEN ==> unframe(frame(payload) + rest) == Ok::<
            Seq<u8>,
            TBGError,
        >(payload),
        payload.len() > MAX_MESSAGE_LEN ==> unframe(frame(payload) + rest) == Err::<
            Seq<u8>,
            TBGError,
        >(TBGError::MessageOverflow(payload.len() as usize)),
{
    lemma_le_round_trip(payload.len());
    let bytes = frame(payload) + rest;
    assert(bytes.take(4) =~= le_bytes(payload.len()));
    assert(bytes.subrange(4, 4 + payload.len() as int) =~= payload);
}

/// The length a four-byte header announces: its bytes read little-endian.
pub open spec fn announced(b: Seq<u8>) -> int {
    b[0] as int + 256 * (b[1] as int) + 65536 * (b[2] as int) + 16777216 * (b[3] as int)
}

/// A header is accepted exactly when the length it announces (its four
/// bytes read little-endian) is at most `MAX_MESSAGE_LEN`, and then gives
/// that length; otherwise it is refused as an overflow of that length.
pub proof fn lemma_header_result_exactly(header: Seq<u8>)
    requires
        header.len() == 4,
    ensures
        announced(header) <= 1024 ==> header_result(header) == Ok::<usize, TBGError>(
            announced(header) as usize,
        ),
        announced(header) > 1024 ==> header_result(header) == Err::<usize, TBGError>(
            TBGError::MessageOverflow(announced(header) as usize),
        ),
{
}

/// Unframing gives a payload only when the input holds the whole frame: the
/// payload is exactly the `announced` number of bytes right after the
/// four-byte header. Input shorter than a header, or than the header plus
/// the length it announces, is an early end of the stream; an announced
/// length over `MAX_MESSAGE_LEN` is refused as an overflow.
pub proof fn lemma_unframe_exactly(bytes: Seq<u8>)
    ensures
        bytes.len() < 4 ==> unframe(bytes) == Err::<Seq<u8>, TBGError>(TBGError::DataStreamEarlyEOF),
        bytes.len() >= 4 && announced(bytes) > 1024 ==> unframe(bytes) == Err::<Seq<u8>, TBGError>(
            TBGError::MessageOverflow(announced(bytes) as usize),
        ),
        bytes.len() >= 4 && announced(bytes) <= 1024 && bytes.len() < 4 + announced(bytes)
            ==> unframe(bytes) == Err::<Seq<u8>, TBGError>(TBGError::DataStreamEarlyEOF),
        bytes.len() >= 4 && announced(bytes) <= 1024 && bytes.len() >= 4 + announced(bytes)
            ==> unframe(bytes) == Ok::<Seq<u8>, TBGError>(
            bytes.subrange(4, 4 + announced(bytes)),
        ),
        unframe(bytes) matches Ok(p) ==> {
            &&& bytes.len() >= 4 + announced(bytes)
            &&& p.len() == announced(bytes)
            &&& forall|k: int| 0 <= k < p.len() ==> #[trigger] p[k] == bytes[4 + k]
        },
{
    if bytes.len() >= 4 {
        assert(bytes.take(4)[0] == bytes[0] && bytes.take(4)[1] == bytes[1] && bytes.take(4)[2]
            == bytes[2] && bytes.take(4)[3] == bytes[3]);
    }
}

/// A frame is the payload's length in four little-endian bytes, followed by
/// the payload byte for byte.
pub proof fn lemma_frame_exactly(payload: Seq<u8>)
    requires
        payload.len() <= u32::MAX,
    ensures
        frame(payload).len() == 4 + payload.len(),
        announced(frame(payload)) == payload.len(),
        forall|k: int| 0 <= k < payload.len() ==> #[trigger] frame(payload)[4 + k] == payload[k],
{
    lemma_le_round_trip(payload.len());
    let f = frame(payload);
    assert(f[0] == le_bytes(payload.len())[0]);
    assert(f[1] == le_bytes(payload.len())[1]);
    assert(f[2] == le_bytes(payload.len())[2]);
    assert(f[3] == le_bytes(payload.len())[3]);
}

} // verus!
