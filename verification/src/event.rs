//! Events of a game, for whoever follows it.

use crate::data::PlayerSerialize;
use vstd::prelude::*;

verus! {

/// Something that happened in a game. `T` carries game-specific data.
#[derive(Debug, Clone)]
pub enum GameEvent<T: Clone> {
    PlayerJoined(String),
    PlayerLeft(String),
    VoteStartGame(bool),
    StartGame,
    AcceptClient(String),
    RejectClient(String),
    TimeoutClient(String),
    Kick(String),
    SendAll(Vec<PlayerSerialize<T>>),
    PlayerWon(String),
    PlayerTurn(String),
    Wager(u8, u8),
    CallLiar(String, u8),
    CallExact(String, u8),
    DiceReady,
    ExactCallCorrect(String),
    PlayerBustedOut(String),
    PlayerLostDie(String),
    ShuffleResult(Vec<u8>),
    Custom(T),
}

} // verus!
