//! The decisions of the game server: how a client joins, what a client
//! thread in the lobby does with the broadcasts it gets and the messages its
//! player sends, and what the server thread relays and when it starts the
//! game. Sockets, channels and timers stay with the caller, which performs
//! the actions returned here.

use crate::data::{
    has_name, is_serialization, new_player, PlayerInfo, PlayerSerialize, PlayersList,
};
use crate::error::{decimal, push_decimal, TBGError};
use crate::message::{ClientMessage, InternalMessage, StartMessage};
use vstd::prelude::*;

verus! {

/// Ids of the players in `players` that voted to start the game.
pub open spec fn voters<T: Clone>(players: Map<usize, PlayerInfo<T>>) -> Set<usize> {
    players.dom().filter(|id: usize| players[id].start_game)
}

/// Number of players in `players` that voted to start the game.
pub open spec fn votes_cast<T: Clone>(players: Map<usize, PlayerInfo<T>>) -> nat {
    voters(players).len()
}

/// A new player who has not voted adds one player and no vote.
proof fn lemma_counts_after_insert_new<T: Clone>(
    m: Map<usize, PlayerInfo<T>>,
    k: usize,
    v: PlayerInfo<T>,
)
    requires
        m.dom().finite(),
        !m.contains_key(k),
        !v.start_game,
    ensures
        votes_cast(m.insert(k, v)) == votes_cast(m),
        m.insert(k, v).len() == m.len() + 1,
{
    assert(voters(m.insert(k, v)) =~= voters(m));
    assert(m.insert(k, v).dom() =~= m.dom().insert(k));
}

/// Changing the vote of one player adds or takes away one vote.
proof fn lemma_counts_after_vote<T: Clone>(m: Map<usize, PlayerInfo<T>>, k: usize, vote: bool)
    requires
        m.dom().finite(),
        m.contains_key(k),
        m[k].start_game != vote,
    ensures
        votes_cast(m.insert(k, PlayerInfo { start_game: vote, ..m[k] })) == if vote {
            votes_cast(m) + 1int
        } else {
            votes_cast(m) - 1int
        },
        m.insert(k, PlayerInfo { start_game: vote, ..m[k] }).len() == m.len(),
{
    let m2 = m.insert(k, PlayerInfo { start_game: vote, ..m[k] });
    m.dom().lemma_len_filter(|id: usize| m[id].start_game);
    assert(m2.dom() =~= m.dom());
    if vote {
        assert(voters(m2) =~= voters(m).insert(k));
    } else {
        assert(voters(m2) =~= voters(m).remove(k));
    }
}

/// Removing a player takes away one player, and its vote if it voted.
proof fn lemma_counts_after_remove<T: Clone>(m: Map<usize, PlayerInfo<T>>, k: usize)
    requires
        m.dom().finite(),
        m.contains_key(k),
    ensures
        votes_cast(m.remove(k)) == if m[k].start_game {
            votes_cast(m) - 1
        } else {
            votes_cast(m) as int
        },
        m.remove(k).len() == m.len() - 1,
{
    m.dom().lemma_len_filter(|id: usize| m[id].start_game);
    assert(m.remove(k).dom() =~= m.dom().remove(k));
    if m[k].start_game {
        assert(voters(m.remove(k)) =~= voters(m).remove(k));
    } else {
        assert(voters(m.remove(k)) =~= voters(m));
    }
}

/// `x + 1` on a counter that wraps around at 256.
pub open spec fn wrap_inc(x: u8) -> u8 {
    ((x + 1) % 256) as u8
}

/// `x - 1` on a counter that wraps around at 256.
pub open spec fn wrap_dec(x: u8) -> u8 {
    ((x + 255) % 256) as u8
}

/// Text of the error a client thread reports when its player is gone.
pub open spec fn missing_id_text(id: usize) -> Seq<char> {
    "Player with id "@ + decimal(id as nat) + " not found. Failed to add to player list"@
}

/// Text of the error a client thread reports when its player is gone while a
/// broadcast is forwarded.
pub open spec fn missing_name_text(name: Seq<char>) -> Seq<char> {
    "Player with name "@ + name + " not found. Failed to add to player list"@
}

/// What the server does with a join request.
#[allow(inconsistent_fields)]
pub enum JoinOutcome<T: Clone, U: Clone> {
    /// The player joined under `id`; `reply` goes to it.
    Accepted { id: usize, reply: ClientMessage<Option<T>, U> },
    /// The request is refused with `error`; `reply`, if any, goes to the client.
    Refused { reply: Option<ClientMessage<Option<T>, U>>, error: TBGError },
}

/// What a client thread does with a message broadcast by the server.
pub enum BroadcastAction<T: Clone, U: Clone> {
    /// Not for clients in the lobby: drop it.
    Ignore,
    /// Send it to the player and stay in the lobby.
    Forward(ClientMessage<T, U>),
    /// Send it to the player, then leave the lobby with the result.
    ForwardThenLeave(ClientMessage<T, U>, Result<(), TBGError>),
    /// Leave the lobby with this error.
    Fail(TBGError),
}

/// What a client thread does after polling its player in the lobby.
pub enum LobbyStep<U> {
    /// Nothing happened; poll again.
    Continue,
    /// The player changed its vote; tell the server thread, which then has
    /// the given counts.
    Voted { notify: InternalMessage<U>, num_votes: u8, num_players: u8 },
    /// The player left; tell the server thread and leave the lobby.
    Left(InternalMessage<U>),
    /// Leave the lobby with this error.
    Fail(TBGError),
}

/// What the server thread does after polling its clients.
pub struct ServerPoll<T: Clone, U: Clone> {
    /// Message to broadcast to all client threads, if any.
    pub broadcast: Option<ClientMessage<T, U>>,
    /// Whether to broadcast `StartGame` and leave the lobby.
    pub start_game: bool,
}

/// True when a join request is accepted: it is a `Join` with a non-empty
/// name that no player has.
pub open spec fn accepts_join<T: Clone, U>(
    players: Map<usize, PlayerInfo<T>>,
    request: Option<StartMessage<U>>,
) -> bool {
    match request {
        Some(StartMessage::Join(name)) => name@.len() > 0 && !has_name(players, name@),
        _ => false,
    }
}

/// The name a join request asks for (meaningful for a `Join`).
pub open spec fn requested_name<U>(request: Option<StartMessage<U>>) -> String {
    match request {
        Some(StartMessage::Join(name)) => name,
        _ => arbitrary(),
    }
}

/// The reply to a refused join request, if any, and the error it is refused
/// with: a timeout when no request came, `InvalidName` for an empty or a
/// taken name (the client hears `RejectClient` only for a taken one), and
/// `FailToConnect` with the peer's address for any other message.
pub open spec fn join_refusal<T: Clone, U: Clone>(
    request: Option<StartMessage<U>>,
    peer: String,
) -> (Option<ClientMessage<Option<T>, U>>, TBGError) {
    match request {
        None => (None, TBGError::TimeOut),
        Some(StartMessage::Join(name)) => if name@.len() == 0 {
            (None, TBGError::InvalidName)
        } else {
            (Some(ClientMessage::RejectClient(name)), TBGError::InvalidName)
        },
        Some(_) => (None, TBGError::FailToConnect(peer)),
    }
}

/// True for the broadcasts that a client thread passes on to its player
/// while in the lobby.
pub open spec fn lobby_forwards<T: Clone, U: Clone>(msg: ClientMessage<T, U>) -> bool {
    match msg {
        ClientMessage::StartGame => true,
        ClientMessage::PlayerLeft(_) => true,
        ClientMessage::AcceptClient(_) => true,
        ClientMessage::VoteStart(_, _, _, _) => true,
        ClientMessage::Kick(_) => true,
        _ => false,
    }
}

/// The broadcast the server thread makes of a message from a client thread
/// when `num_votes` players have voted. A vote is announced with the vote
/// count in both count fields.
pub open spec fn relayed<T: Clone, U: Clone>(msg: InternalMessage<U>, num_votes: u8) -> Option<
    ClientMessage<T, U>,
> {
    match msg {
        InternalMessage::VoteStart(name, vote) => Some(
            ClientMessage::VoteStart(name, vote, num_votes, num_votes),
        ),
        InternalMessage::AcceptClient(name) => Some(ClientMessage::AcceptClient(name)),
        InternalMessage::PlayerLeft(name) => Some(ClientMessage::PlayerLeft(name)),
        InternalMessage::Kick(name) => Some(ClientMessage::Kick(name)),
        InternalMessage::TimeOutClient(name) => Some(ClientMessage::TimeOutClient(name)),
        InternalMessage::RejectClient(_) => None,
        InternalMessage::Custom(_) => None,
    }
}

/// The state the client threads and the server thread share: the players,
/// the number of players that joined and the number of votes to start.
/// Both counters wrap around at 256, as the server's byte counters do.
pub struct Lobby<T: Clone> {
    players: PlayersList<T>,
    next_id: usize,
    num_players: u8,
    num_votes: u8,
}

impl<T: Clone> Lobby<T> {
    /// The players, by id.
    pub closed spec fn players_view(&self) -> Map<usize, PlayerInfo<T>> {
        self.players@
    }

    /// The player counter.
    pub closed spec fn spec_num_players(&self) -> u8 {
        self.num_players
    }

    /// The vote counter.
    pub closed spec fn spec_num_votes(&self) -> u8 {
        self.num_votes
    }

    /// Well-formedness of the player list.
    pub closed spec fn wf(&self) -> bool {
        &&& self.players.wf()
        &&& forall|id: usize| #[trigger] self.players@.contains_key(id) ==> id < self.next_id
    }

    /// The lowest id a joining player may get: above every id in use, and
    /// above every id handed out by an earlier join.
    pub closed spec fn spec_next_id(&self) -> usize {
        self.next_id
    }

    /// In a well-formed lobby every id in use is below `spec_next_id`.
    pub proof fn lemma_wf(&self)
        requires
            self.wf(),
        ensures
            self.players_view().dom().finite(),
            forall|id: usize| #[trigger] self.players_view().contains_key(id) ==> id < self.spec_next_id(),
    {
        self.players.lemma_wf();
    }

    /// The vote counter agrees with the players (modulo 256): one vote per
    /// player that voted to start.
    pub open spec fn votes_agree(&self) -> bool {
        self.spec_num_votes() as nat == votes_cast(self.players_view()) % 256
    }

    /// The counters agree with the players: one count per player, one vote
    /// per player that voted to start (modulo 256).
    pub open spec fn counts_agree(&self) -> bool {
        &&& self.spec_num_players() as nat == self.players_view().len() % 256
        &&& self.spec_num_votes() as nat == votes_cast(self.players_view()) % 256
    }

    /// True when `self` and `other` hold the same players and counters.
    pub open spec fn same_state(&self, other: &Self) -> bool {
        &&& self.players_view() == other.players_view()
        &&& self.spec_next_id() == other.spec_next_id()
        &&& self.spec_num_players() == other.spec_num_players()
        &&& self.spec_num_votes() == other.spec_num_votes()
    }

    /// An empty lobby.
    pub fn new() -> (lobby: Self)
        ensures
            lobby.wf(),
            lobby.players_view() == Map::<usize, PlayerInfo<T>>::empty(),
            lobby.spec_num_players() == 0,
            lobby.spec_num_votes() == 0,
            lobby.spec_next_id() == 0,
            lobby.counts_agree(),
    {
        let lobby = Lobby { players: PlayersList::new(), next_id: 0, num_players: 0, num_votes: 0 };
        proof {
            let m = lobby.players_view();
            assert(m.dom().filter(|id: usize| m[id].start_game) =~= Set::empty());
        }
        lobby
    }

    /// The player list.
    pub fn players(&self) -> (players: &PlayersList<T>)
        ensures
            players@ == self.players_view(),
    {
        &self.players
    }

    /// The lowest id a joining player may get.
    pub fn next_id(&self) -> (id: usize)
        ensures
            id == self.spec_next_id(),
    {
        self.next_id
    }

    /// The player counter.
    pub fn num_players(&self) -> (n: u8)
        ensures
            n == self.spec_num_players(),
    {
        self.num_players
    }

    /// The vote counter.
    pub fn num_votes(&self) -> (n: u8)
        ensures
            n == self.spec_num_votes(),
    {
        self.num_votes
    }

    /// Whether `client_join` accepts `request`: a `Join` with a non-empty
    /// name that no player has.
    pub fn would_accept_join<U>(&self, request: &Option<StartMessage<U>>) -> (accept: bool)
        requires
            self.wf(),
        ensures
            accept == accepts_join(self.players_view(), *request),
    {
        match request {
            Some(StartMessage::Join(name)) => !name.as_str().is_empty()
                && !self.players.contains_player(name.clone()),
            _ => false,
        }
    }

    /// Handles the first message of a new client: a `Join` with a free,
    /// non-empty name adds the player under `id`, which the caller hands out
    /// from an increasing source (at least `spec_next_id`, so not in use),
    /// and answers with the list of players (without their data); anything
    /// else is refused and leaves the lobby as it was. `None` stands for no
    /// request before the timeout; `peer` is the client's address. The new
    /// player is counted by `count_joined_player` once the answer is sent.
    pub fn client_join<U: Clone>(
        &mut self,
        request: Option<StartMessage<U>>,
        peer: String,
        id: usize,
    ) -> (outcome: JoinOutcome<T, U>)
        requires
            old(self).wf(),
            old(self).spec_next_id() <= id < usize::MAX,
        ensures
            final(self).wf(),
            final(self).spec_num_players() == old(self).spec_num_players(),
            final(self).spec_num_votes() == old(self).spec_num_votes(),
            old(self).votes_agree() ==> final(self).votes_agree(),
            final(self).spec_next_id() >= old(self).spec_next_id(),
            if accepts_join(old(self).players_view(), request) {
                let name = requested_name(request);
                &&& !old(self).players_view().contains_key(id)
                &&& final(self).spec_next_id() == id + 1
                &&& final(self).players_view() == old(self).players_view().insert(
                    id,
                    new_player(name, id, None),
                )
                &&& outcome matches JoinOutcome::Accepted { id: joined, reply } && {
                    &&& joined == id
                    &&& reply matches ClientMessage::SendAll(list) && is_serialization(
                        final(self).players_view(),
                        false,
                        list@,
                    )
                }
            } else {
                &&& final(self).same_state(old(self))
                &&& outcome == JoinOutcome::<T, U>::Refused {
                    reply: join_refusal::<T, U>(request, peer).0,
                    error: join_refusal::<T, U>(request, peer).1,
                }
            },
    {
        proof {
            self.players.lemma_wf();
        }
        match request {
            None => JoinOutcome::Refused { reply: None, error: TBGError::TimeOut },
            Some(StartMessage::Join(name)) => {
                if name.as_str().is_empty() {
                    return JoinOutcome::Refused { reply: None, error: TBGError::InvalidName };
                }
                match self.players.add_player(name.clone(), id, None) {
                    Err(_) => JoinOutcome::Refused {
                        reply: Some(ClientMessage::RejectClient(name)),
                        error: TBGError::InvalidName,
                    },
                    Ok(id) => {
                        self.next_id = id + 1;
                        proof {
                            lemma_counts_after_insert_new(
                                old(self).players_view(),
                                id,
                                new_player(name, id, None),
                            );
                        }
                        let list = self.players.serialize_players(false);
                        JoinOutcome::Accepted { id, reply: ClientMessage::SendAll(list) }
                    },
                }
            },
            Some(_) => JoinOutcome::Refused { reply: None, error: TBGError::FailToConnect(peer) },
        }
    }

    /// Counts a player whose join was accepted and answered.
    pub fn count_joined_player(&mut self)
        requires
            old(self).wf(),
        ensures
            final(self).wf(),
            final(self).players_view() == old(self).players_view(),
            final(self).spec_next_id() == old(self).spec_next_id(),
            final(self).spec_num_players() == wrap_inc(old(self).spec_num_players()),
            final(self).spec_num_votes() == old(self).spec_num_votes(),
    {
        self.num_players = self.num_players.wrapping_add(1);
    }

    /// The name of the player with id `player_id`, which its client thread
    /// looks up when it enters the lobby; an error when the player is gone.
    pub fn lobby_entry_name(&self, player_id: usize) -> (result: Result<String, TBGError>)
        ensures
            match result {
                Ok(name) => self.players_view().contains_key(player_id) && name
                    == self.players_view()[player_id].name,
                Err(e) => !self.players_view().contains_key(player_id) && (e matches TBGError::Other(
                    text,
                ) && text@ == missing_id_text(player_id)),
            },
    {
        match self.players.get_player(player_id) {
            Some(player) => Ok(player.name.clone()),
            None => Err(TBGError::Other(missing_id_message(player_id))),
        }
    }

    /// What the client thread of player `player_id`, called `own_name`, does
    /// with a broadcast `msg`: lobby messages are passed on to the player;
    /// after `StartGame`, or a `Kick` of this player, it leaves the lobby
    /// (with an error when kicked); other messages are dropped.
    pub fn forward_broadcast<U: Clone>(
        &self,
        player_id: usize,
        own_name: &String,
        msg: ClientMessage<T, U>,
    ) -> (action: BroadcastAction<T, U>)
        ensures
            !lobby_forwards(msg) ==> action == BroadcastAction::<T, U>::Ignore,
            lobby_forwards(msg) && !self.players_view().contains_key(player_id) ==> (action matches BroadcastAction::Fail(
                TBGError::Other(text),
            ) && text@ == missing_name_text(own_name@)),
            lobby_forwards(msg) && self.players_view().contains_key(player_id) ==> match msg {
                ClientMessage::StartGame => action == BroadcastAction::ForwardThenLeave(
                    msg,
                    Ok::<(), TBGError>(()),
                ),
                ClientMessage::Kick(name) => if name@ == own_name@ {
                    action matches BroadcastAction::ForwardThenLeave(
                        sent,
                        Err(TBGError::Other(text)),
                    ) && sent == msg && text@ == "Player kicked"@
                } else {
                    action == BroadcastAction::Forward(msg)
                },
                _ => action == BroadcastAction::Forward(msg),
            },
    {
        let passes = match &msg {
            ClientMessage::StartGame => true,
            ClientMessage::PlayerLeft(_) => true,
            ClientMessage::AcceptClient(_) => true,
            ClientMessage::VoteStart(_, _, _, _) => true,
            ClientMessage::Kick(_) => true,
            _ => false,
        };
        if !passes {
            return BroadcastAction::Ignore;
        }
        if self.players.get_player(player_id).is_none() {
            return BroadcastAction::Fail(TBGError::Other(missing_name_message(own_name)));
        }
        let leave = match &msg {
            ClientMessage::StartGame => Some(Ok(())),
            ClientMessage::Kick(name) => if *name == *own_name {
                Some(Err(TBGError::Other(String::from_str("Player kicked"))))
            } else {
                None
            },
            _ => None,
        };
        match leave {
            Some(result) => BroadcastAction::ForwardThenLeave(msg, result),
            None => BroadcastAction::Forward(msg),
        }
    }

    /// What the client thread of player `player_id` does with what its
    /// player sent while in the lobby (`None` when nothing came in time).
    /// A changed vote is counted and reported to the server thread; a repeated
    /// vote changes nothing; `Exit` removes the player, uncounts it and its
    /// vote, and is reported; anything else is ignored. When the player is
    /// gone the thread fails, whatever came.
    pub fn handle_start_message<U>(&mut self, player_id: usize, msg: Option<StartMessage<U>>) -> (step:
        LobbyStep<U>)
        requires
            old(self).wf(),
        ensures
            final(self).wf(),
            final(self).spec_next_id() == old(self).spec_next_id(),
            old(self).counts_agree() ==> final(self).counts_agree(),
            old(self).votes_agree() ==> final(self).votes_agree(),
            !old(self).players_view().contains_key(player_id) ==> {
                &&& final(self).same_state(old(self))
                &&& step matches LobbyStep::Fail(TBGError::Other(text)) && text@ == missing_id_text(
                    player_id,
                )
            },
            old(self).players_view().contains_key(player_id) ==> {
                let player = old(self).players_view()[player_id];
                match msg {
                    Some(StartMessage::VoteStart(vote)) => if vote != player.start_game {
                        &&& final(self).players_view() == old(self).players_view().insert(
                            player_id,
                            PlayerInfo { start_game: vote, ..player },
                        )
                        &&& final(self).spec_num_votes() == if vote {
                            wrap_inc(old(self).spec_num_votes())
                        } else {
                            wrap_dec(old(self).spec_num_votes())
                        }
                        &&& final(self).spec_num_players() == old(self).spec_num_players()
                        &&& step == LobbyStep::<U>::Voted {
                            notify: InternalMessage::VoteStart(player.name, vote),
                            num_votes: final(self).spec_num_votes(),
                            num_players: final(self).spec_num_players(),
                        }
                    } else {
                        final(self).same_state(old(self)) && step == LobbyStep::<U>::Continue
                    },
                    Some(StartMessage::Exit) => {
                        &&& final(self).players_view() == old(self).players_view().remove(player_id)
                        &&& final(self).spec_num_players() == wrap_dec(old(self).spec_num_players())
                        &&& final(self).spec_num_votes() == if player.start_game {
                            wrap_dec(old(self).spec_num_votes())
                        } else {
                            old(self).spec_num_votes()
                        }
                        &&& step == LobbyStep::<U>::Left(InternalMessage::PlayerLeft(player.name))
                    },
                    _ => final(self).same_state(old(self)) && step == LobbyStep::<U>::Continue,
                }
            },
    {
        proof {
            self.players.lemma_wf();
        }
        let (name, start_game) = match self.players.get_player(player_id) {
            Some(player) => (player.name.clone(), player.start_game),
            None => {
                return LobbyStep::Fail(TBGError::Other(missing_id_message(player_id)));
            },
        };
        let ghost m = self.players@;
        match msg {
            Some(StartMessage::VoteStart(vote)) => {
                if vote == start_game {
                    return LobbyStep::Continue;
                }
                if vote {
                    self.num_votes = self.num_votes.wrapping_add(1);
                } else {
                    self.num_votes = self.num_votes.wrapping_sub(1);
                }
                self.players.set_start_game(player_id, vote);
                proof {
                    lemma_counts_after_vote(m, player_id, vote);
                }
                LobbyStep::Voted {
                    notify: InternalMessage::VoteStart(name, vote),
                    num_votes: self.num_votes,
                    num_players: self.num_players,
                }
            },
            Some(StartMessage::Exit) => {
                self.num_players = self.num_players.wrapping_sub(1);
                if start_game {
                    self.num_votes = self.num_votes.wrapping_sub(1);
                }
                let _ = self.players.remove_player(player_id);
                proof {
                    lemma_counts_after_remove(m, player_id);
                }
                LobbyStep::Left(InternalMessage::PlayerLeft(name))
            },
            _ => LobbyStep::Continue,
        }
    }

    /// Starts a new round of voting: the vote counter goes back to zero.
    pub fn begin_round(&mut self)
        requires
            old(self).wf(),
        ensures
            final(self).wf(),
            final(self).players_view() == old(self).players_view(),
            final(self).spec_next_id() == old(self).spec_next_id(),
            final(self).spec_num_players() == old(self).spec_num_players(),
            final(self).spec_num_votes() == 0,
    {
        self.num_votes = 0;
    }

    /// Whether the server takes in another client: fewer than `max_players`
    /// have joined.
    pub fn can_accept_player(&self, max_players: u8) -> (accept: bool)
        ensures
            accept == (self.spec_num_players() < max_players),
    {
        self.num_players < max_players
    }

    /// What the server thread does with `msg`, the message a client thread
    /// sent (`None` when there was none): it relays it to all clients, and
    /// starts the game when more than `min_players` have joined and
    /// `quorum_reached` (enough of them voted to start). Without a message
    /// nothing happens.
    pub fn receive_client_message<U: Clone>(
        &self,
        min_players: u8,
        msg: Option<InternalMessage<U>>,
        quorum_reached: bool,
    ) -> (poll: ServerPoll<T, U>)
        ensures
            match msg {
                None => poll.broadcast is None && !poll.start_game,
                Some(m) => {
                    &&& poll.broadcast == relayed::<T, U>(m, self.spec_num_votes())
                    &&& poll.start_game == (self.spec_num_players() > min_players && quorum_reached)
                },
            },
    {
        match msg {
            None => ServerPoll { broadcast: None, start_game: false },
            Some(m) => ServerPoll {
                broadcast: relay_internal_message(m, self.num_votes),
                start_game: self.num_players > min_players && quorum_reached,
            },
        }
    }
}

/// The broadcast the server thread makes of a message from a client thread
/// when `num_votes` players have voted.
pub fn relay_internal_message<T: Clone, U: Clone>(msg: InternalMessage<U>, num_votes: u8) -> (out:
    Option<ClientMessage<T, U>>)
    ensures
        out == relayed::<T, U>(msg, num_votes),
{
    match msg {
        InternalMessage::VoteStart(name, vote) => Some(
            ClientMessage::VoteStart(name, vote, num_votes, num_votes),
        ),
        InternalMessage::AcceptClient(name) => Some(ClientMessage::AcceptClient(name)),
        InternalMessage::PlayerLeft(name) => Some(ClientMessage::PlayerLeft(name)),
        InternalMessage::Kick(name) => Some(ClientMessage::Kick(name)),
        InternalMessage::TimeOutClient(name) => Some(ClientMessage::TimeOutClient(name)),
        InternalMessage::RejectClient(_) => None,
        InternalMessage::Custom(_) => None,
    }
}

/// The text of the error a client thread reports when its player is gone.
fn missing_id_message(id: usize) -> (text: String)
    ensures
        text@ == missing_id_text(id),
{
    let mut text = String::from_str("Player with id ");
    push_decimal(&mut text, id);
    text.append(" not found. Failed to add to player list");
    text
}

/// The text of the error a client thread reports when its player is gone
/// while a broadcast is forwarded.
fn missing_name_message(name: &String) -> (text: String)
    ensures
        text@ == missing_name_text(name@),
{
    let mut text = String::from_str("Player with name ");
    text.append(name.as_str());
    text.append(" not found. Failed to add to player list");
    text
}

/// A vote to start followed by its withdrawal leaves the players and the
/// vote counter as they were.
pub proof fn lemma_vote_then_withdraw<T: Clone>(
    players: Map<usize, PlayerInfo<T>>,
    num_votes: u8,
    id: usize,
)
    requires
        players.contains_key(id),
        !players[id].start_game,
    ensures
        ({
            let voted = players.insert(id, PlayerInfo { start_game: true, ..players[id] });
            voted.insert(id, PlayerInfo { start_game: false, ..voted[id] }) == players
        }),
        wrap_dec(wrap_inc(num_votes)) == num_votes,
{
    let voted = players.insert(id, PlayerInfo { start_game: true, ..players[id] });
    assert(voted.insert(id, PlayerInfo { start_game: false, ..voted[id] }) =~= players);
}

/// A player who joins and then exits leaves the players and both counters
/// as they were before it joined.
pub proof fn lemma_join_then_exit<T: Clone>(
    players: Map<usize, PlayerInfo<T>>,
    num_players: u8,
    num_votes: u8,
    name: String,
    id: usize,
)
    requires
        !players.contains_key(id),
    ensures
        ({
            let joined = players.insert(id, new_player(name, id, None));
            &&& joined.remove(id) == players
            &&& wrap_dec(wrap_inc(num_players)) == num_players
            &&& (if joined[id].start_game {
                wrap_dec(num_votes)
            } else {
                num_votes
            }) == num_votes
        }),
{
    let joined = players.insert(id, new_player(name, id, None));
    assert(joined.remove(id) =~= players);
}

/// A join under a fresh id, once counted, keeps the counters in agreement
/// with the players: the player count goes up by one with the players, and
/// the new player brings no vote.
pub proof fn lemma_join_then_count_keeps_counts<T: Clone>(
    players: Map<usize, PlayerInfo<T>>,
    num_players: u8,
    num_votes: u8,
    name: String,
    id: usize,
)
    requires
        players.dom().finite(),
        !players.contains_key(id),
        num_players as nat == players.len() % 256,
        num_votes as nat == votes_cast(players) % 256,
    ensures
        ({
            let joined = players.insert(id, new_player(name, id, None));
            &&& wrap_inc(num_players) as nat == joined.len() % 256
            &&& num_votes as nat == votes_cast(joined) % 256
        }),
{
    lemma_counts_after_insert_new(players, id, new_player(name, id, None));
}

/// Ids handed out by the joins of a lobby strictly increase: the id of a
/// later join, taken at or above the lobby's next id (which never goes
/// down), is larger than the id of an earlier join.
pub proof fn lemma_later_ids_are_larger<T: Clone>(
    after_earlier: Lobby<T>,
    earlier_id: usize,
    before_later: Lobby<T>,
    later_id: usize,
)
    requires
        after_earlier.spec_next_id() == earlier_id + 1,
        before_later.spec_next_id() >= after_earlier.spec_next_id(),
        later_id >= before_later.spec_next_id(),
    ensures
        earlier_id < later_id,
        !before_later.wf() || !before_later.players_view().contains_key(later_id),
{
    if before_later.wf() {
        before_later.lemma_wf();
    }
}

/// Every vote message, a vote to start or its withdrawal, is relayed to
/// all clients with the same name and vote, and the vote count in both
/// count fields; it is never dropped.
pub proof fn lemma_relay_vote<T: Clone, U: Clone>(name: String, vote: bool, n: u8)
    ensures
        relayed::<T, U>(InternalMessage::VoteStart(name, vote), n) == Some(
            ClientMessage::<T, U>::VoteStart(name, vote, n, n),
        ),
        relayed::<T, U>(InternalMessage::VoteStart(name, vote), n) is Some,
{
}

/// Joins, departures, kicks and time-outs are relayed unchanged, whatever
/// the vote count; rejections and game-specific messages are not relayed.
pub proof fn lemma_relay_others<T: Clone, U: Clone>(name: String, custom: U, n: u8)
    ensures
        relayed::<T, U>(InternalMessage::AcceptClient(name), n) == Some(
            ClientMessage::<T, U>::AcceptClient(name),
        ),
        relayed::<T, U>(InternalMessage::PlayerLeft(name), n) == Some(
            ClientMessage::<T, U>::PlayerLeft(name),
        ),
        relayed::<T, U>(InternalMessage::Kick(name), n) == Some(ClientMessage::<T, U>::Kick(name)),
        relayed::<T, U>(InternalMessage::TimeOutClient(name), n) == Some(
            ClientMessage::<T, U>::TimeOutClient(name),
        ),
        relayed::<T, U>(InternalMessage::RejectClient(name), n) is None,
        relayed::<T, U>(InternalMessage::Custom(custom), n) is None,
{
}

/// A client thread in the lobby passes on exactly the start of the game,
/// departures, acceptances, votes and kicks; everything else (time-outs,
/// turns, wins, rejections, player lists, game-specific messages) is not
/// for the lobby.
pub proof fn lemma_lobby_forwards_exactly<T: Clone, U: Clone>(msg: ClientMessage<T, U>)
    ensures
        lobby_forwards(msg) <==> (msg is StartGame || msg is PlayerLeft || msg is AcceptClient
            || msg is VoteStart || msg is Kick),
        msg is TimeOutClient ==> !lobby_forwards(msg),
        msg is PlayerTurn ==> !lobby_forwards(msg),
        msg is PlayerWon ==> !lobby_forwards(msg),
        msg is RejectClient ==> !lobby_forwards(msg),
        msg is SendAll ==> !lobby_forwards(msg),
        msg is Custom ==> !lobby_forwards(msg),
{
}

/// A join request is accepted exactly when it is a `Join` whose name is
/// non-empty and held by no player, whatever characters the name holds;
/// any other request is refused.
pub proof fn lemma_accepts_join_exactly<T: Clone, U>(
    players: Map<usize, PlayerInfo<T>>,
    request: Option<StartMessage<U>>,
)
    ensures
        accepts_join(players, request) <==> (request matches Some(StartMessage::Join(name)) && name@.len()
            > 0 && !(exists|id: usize|
            players.contains_key(id) && #[trigger] players[id].name@ == name@)),
        request matches Some(StartMessage::Join(name)) ==> requested_name(request) == name,
{
    if let Some(StartMessage::Join(name)) = request {
        if has_name(players, name@) {
            let id = choose|id: usize| #[trigger] players.contains_key(id) && players[id].name@ == name@;
            assert(players.contains_key(id) && players[id].name@ == name@);
        }
    }
}

/// Refused join requests: no request in time is a time-out; an empty name
/// is invalid with no reply; a taken name is invalid and the client is told
/// its name is rejected; any other message fails to connect, naming the peer.
pub proof fn lemma_join_refusal_cases<T: Clone, U: Clone>(
    request: Option<StartMessage<U>>,
    peer: String,
)
    ensures
        request is None ==> join_refusal::<T, U>(request, peer) == (
            None::<ClientMessage<Option<T>, U>>,
            TBGError::TimeOut,
        ),
        request matches Some(StartMessage::Join(name)) ==> (join_refusal::<T, U>(request, peer).1
            == TBGError::InvalidName && (name@.len() == 0 ==> join_refusal::<T, U>(request, peer).0
            is None) && (name@.len() > 0 ==> join_refusal::<T, U>(request, peer).0 == Some(
            ClientMessage::<Option<T>, U>::RejectClient(name),
        ))),
        (request is Some && !(request->0 is Join)) ==> join_refusal::<T, U>(request, peer) == (
            None::<ClientMessage<Option<T>, U>>,
            TBGError::FailToConnect(peer),
        ),
{
}

/// The byte counters count up and down by one, wrapping between 255 and 0.
pub proof fn lemma_wrapping_counters(x: u8)
    ensures
        x < 255 ==> wrap_inc(x) == x + 1,
        x == 255 ==> wrap_inc(x) == 0,
        x > 0 ==> wrap_dec(x) == x - 1,
        x == 0 ==> wrap_dec(x) == 255,
        wrap_dec(wrap_inc(x)) == x,
        wrap_inc(wrap_dec(x)) == x,
{
}

} // verus!
