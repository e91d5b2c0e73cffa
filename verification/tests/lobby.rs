use tbg::error::TBGError;
use tbg::message::{ClientMessage, InternalMessage, StartMessage};
use tbg::server::{relay_internal_message, BroadcastAction, JoinOutcome, Lobby, LobbyStep};

type Msg = ClientMessage<u8, u8>;

fn join_as(lobby: &mut Lobby<u8>, name: &str, id: usize) -> usize {
    let request = Some(StartMessage::Join(String::from(name)));
    assert!(lobby.would_accept_join(&request));
    match lobby.client_join::<u8>(request, String::from("peer"), id) {
        JoinOutcome::Accepted { id, .. } => {
            lobby.count_joined_player();
            id
        }
        JoinOutcome::Refused { error, .. } => panic!("join refused: {error:?}"),
    }
}

fn join(lobby: &mut Lobby<u8>, name: &str) -> usize {
    let id = lobby.next_id();
    join_as(lobby, name, id)
}

#[test]
fn accepted_join_counts_player_and_sends_list() {
    let mut lobby: Lobby<u8> = Lobby::new();
    join_as(&mut lobby, "ann", 0);
    match lobby.client_join::<u8>(Some(StartMessage::Join(String::from("bob"))), String::from("p"), 7) {
        JoinOutcome::Accepted { id, reply: ClientMessage::SendAll(mut list) } => {
            assert_eq!(id, 7);
            assert_eq!(lobby.next_id(), 8);
            // counted only once the answer went out
            assert_eq!(lobby.num_players(), 1);
            lobby.count_joined_player();
            list.sort_by(|a, b| a.name.cmp(&b.name));
            let names: Vec<&str> = list.iter().map(|p| p.name.as_str()).collect();
            assert_eq!(names, vec!["ann", "bob"]);
            assert!(list.iter().all(|p| p.data.is_none()));
        }
        _ => panic!("expected an accepted join with the player list"),
    }
    assert_eq!(lobby.num_players(), 2);
    assert_eq!(lobby.num_votes(), 0);
}

#[test]
fn taken_name_is_rejected_with_reply() {
    let mut lobby: Lobby<u8> = Lobby::new();
    join_as(&mut lobby, "ann", 0);
    assert!(!lobby.would_accept_join::<u8>(&Some(StartMessage::Join(String::from("ann")))));
    match lobby.client_join::<u8>(Some(StartMessage::Join(String::from("ann"))), String::from("p"), 1) {
        JoinOutcome::Refused { reply, error } => {
            assert_eq!(reply, Some(ClientMessage::RejectClient(String::from("ann"))));
            assert_eq!(error, TBGError::InvalidName);
        }
        _ => panic!("expected a refusal"),
    }
    assert_eq!(lobby.num_players(), 1);
    assert_eq!(lobby.players().len(), 1);
    // a refused join leaves the next id where it was
    assert_eq!(lobby.next_id(), 1);
}

#[test]
fn ids_of_later_joins_are_larger() {
    let mut lobby: Lobby<u8> = Lobby::new();
    assert_eq!(lobby.next_id(), 0);
    let a = join_as(&mut lobby, "ann", 3);
    let b = join(&mut lobby, "bob");
    let c = join_as(&mut lobby, "cy", 10);
    assert!(a < b && b < c);
    assert_eq!((a, b, c), (3, 4, 10));
    assert_eq!(lobby.next_id(), 11);
}

#[test]
fn empty_name_timeout_and_other_message_are_refused() {
    let mut lobby: Lobby<u8> = Lobby::new();
    assert!(!lobby.would_accept_join::<u8>(&Some(StartMessage::Join(String::new()))));
    assert!(!lobby.would_accept_join::<u8>(&None));
    match lobby.client_join::<u8>(Some(StartMessage::Join(String::new())), String::from("p"), 0) {
        JoinOutcome::Refused { reply: None, error } => assert_eq!(error, TBGError::InvalidName),
        _ => panic!("empty name must be refused without reply"),
    }
    match lobby.client_join::<u8>(None, String::from("p"), 0) {
        JoinOutcome::Refused { reply: None, error } => assert_eq!(error, TBGError::TimeOut),
        _ => panic!("timeout must be refused"),
    }
    match lobby.client_join::<u8>(Some(StartMessage::VoteStart(true)), String::from("1.2.3.4:5"), 0) {
        JoinOutcome::Refused { reply: None, error } => {
            assert_eq!(error, TBGError::FailToConnect(String::from("1.2.3.4:5")))
        }
        _ => panic!("a non-join first message must be refused"),
    }
    assert_eq!(lobby.num_players(), 0);
}

#[test]
fn votes_are_counted_once_per_player() {
    let mut lobby: Lobby<u8> = Lobby::new();
    let ann = join(&mut lobby, "ann");
    let bob = join(&mut lobby, "bob");
    match lobby.handle_start_message::<u8>(ann, Some(StartMessage::VoteStart(true))) {
        LobbyStep::Voted { notify, num_votes, num_players } => {
            assert_eq!(notify, InternalMessage::VoteStart(String::from("ann"), true));
            assert_eq!((num_votes, num_players), (1, 2));
        }
        _ => panic!("expected a vote"),
    }
    // the same vote again changes nothing
    assert!(matches!(
        lobby.handle_start_message::<u8>(ann, Some(StartMessage::VoteStart(true))),
        LobbyStep::Continue
    ));
    assert_eq!(lobby.num_votes(), 1);
    assert!(matches!(
        lobby.handle_start_message::<u8>(bob, Some(StartMessage::VoteStart(true))),
        LobbyStep::Voted { num_votes: 2, .. }
    ));
    assert!(matches!(
        lobby.handle_start_message::<u8>(ann, Some(StartMessage::VoteStart(false))),
        LobbyStep::Voted { num_votes: 1, .. }
    ));
    assert!(!lobby.players().get_player(ann).unwrap().start_game);
}

#[test]
fn vote_then_withdraw_restores_counts() {
    let mut lobby: Lobby<u8> = Lobby::new();
    let ann = join(&mut lobby, "ann");
    lobby.handle_start_message::<u8>(ann, Some(StartMessage::VoteStart(true)));
    lobby.handle_start_message::<u8>(ann, Some(StartMessage::VoteStart(false)));
    assert_eq!(lobby.num_votes(), 0);
    assert_eq!(lobby.num_players(), 1);
    assert!(!lobby.players().get_player(ann).unwrap().start_game);
}

#[test]
fn exit_removes_player_and_its_vote() {
    let mut lobby: Lobby<u8> = Lobby::new();
    let ann = join(&mut lobby, "ann");
    let bob = join(&mut lobby, "bob");
    lobby.handle_start_message::<u8>(ann, Some(StartMessage::VoteStart(true)));
    lobby.handle_start_message::<u8>(bob, Some(StartMessage::VoteStart(true)));
    match lobby.handle_start_message::<u8>(ann, Some(StartMessage::Exit)) {
        LobbyStep::Left(notify) => {
            assert_eq!(notify, InternalMessage::PlayerLeft(String::from("ann")))
        }
        _ => panic!("expected the player to leave"),
    }
    assert_eq!(lobby.num_players(), 1);
    assert_eq!(lobby.num_votes(), 1);
    assert!(!lobby.players().contains_player(String::from("ann")));
    // the name is free again
    assert_eq!(join_as(&mut lobby, "ann", 9), 9);
    assert_eq!(lobby.num_players(), 2);
}

#[test]
fn missing_player_fails_and_other_messages_are_ignored() {
    let mut lobby: Lobby<u8> = Lobby::new();
    let ann = join(&mut lobby, "ann");
    assert!(matches!(lobby.handle_start_message::<u8>(ann, None), LobbyStep::Continue));
    assert!(matches!(
        lobby.handle_start_message::<u8>(ann, Some(StartMessage::Custom(3))),
        LobbyStep::Continue
    ));
    assert!(matches!(
        lobby.handle_start_message::<u8>(ann, Some(StartMessage::Join(String::from("x")))),
        LobbyStep::Continue
    ));
    match lobby.handle_start_message::<u8>(7, None) {
        LobbyStep::Fail(e) => assert_eq!(
            e,
            TBGError::Other(String::from(
                "Player with id 7 not found. Failed to add to player list"
            ))
        ),
        _ => panic!("expected a failure"),
    }
    assert_eq!(
        lobby.lobby_entry_name(12),
        Err(TBGError::Other(String::from(
            "Player with id 12 not found. Failed to add to player list"
        )))
    );
    assert_eq!(lobby.lobby_entry_name(ann), Ok(String::from("ann")));
}

#[test]
fn broadcasts_forwarded_in_lobby() {
    let mut lobby: Lobby<u8> = Lobby::new();
    let ann = join(&mut lobby, "ann");
    let me = String::from("ann");
    let fwd = |m: Msg| lobby.forward_broadcast(ann, &me, m);
    assert!(matches!(
        fwd(ClientMessage::PlayerLeft(String::from("bob"))),
        BroadcastAction::Forward(ClientMessage::PlayerLeft(_))
    ));
    assert!(matches!(
        fwd(ClientMessage::AcceptClient(String::from("bob"))),
        BroadcastAction::Forward(_)
    ));
    assert!(matches!(
        fwd(ClientMessage::VoteStart(String::from("bob"), true, 1, 1)),
        BroadcastAction::Forward(_)
    ));
    assert!(matches!(fwd(ClientMessage::Kick(String::from("bob"))), BroadcastAction::Forward(_)));
    assert!(matches!(
        fwd(ClientMessage::StartGame),
        BroadcastAction::ForwardThenLeave(ClientMessage::StartGame, Ok(()))
    ));
    match fwd(ClientMessage::Kick(String::from("ann"))) {
        BroadcastAction::ForwardThenLeave(m, Err(e)) => {
            assert_eq!(m, ClientMessage::Kick(String::from("ann")));
            assert_eq!(e, TBGError::Other(String::from("Player kicked")));
        }
        _ => panic!("a kick of this player ends the lobby"),
    }
    assert!(matches!(fwd(ClientMessage::PlayerWon(String::from("x"))), BroadcastAction::Ignore));
    assert!(matches!(fwd(ClientMessage::Custom(1)), BroadcastAction::Ignore));
    assert!(matches!(fwd(ClientMessage::SendAll(vec![])), BroadcastAction::Ignore));
}

#[test]
fn broadcast_for_missing_player_fails() {
    let lobby: Lobby<u8> = Lobby::new();
    match lobby.forward_broadcast::<u8>(0, &String::from("zed"), ClientMessage::StartGame) {
        BroadcastAction::Fail(e) => assert_eq!(
            e,
            TBGError::Other(String::from(
                "Player with name zed not found. Failed to add to player list"
            ))
        ),
        _ => panic!("expected a failure"),
    }
    // messages not meant for the lobby are dropped before the lookup
    assert!(matches!(
        lobby.forward_broadcast::<u8>(0, &String::from("zed"), ClientMessage::Custom(0)),
        BroadcastAction::Ignore
    ));
}

#[test]
fn server_relays_client_messages() {
    let r = |m: InternalMessage<u8>| relay_internal_message::<u8, u8>(m, 3);
    assert_eq!(
        r(InternalMessage::VoteStart(String::from("a"), true)),
        Some(ClientMessage::VoteStart(String::from("a"), true, 3, 3))
    );
    assert_eq!(
        r(InternalMessage::AcceptClient(String::from("a"))),
        Some(ClientMessage::AcceptClient(String::from("a")))
    );
    assert_eq!(
        r(InternalMessage::PlayerLeft(String::from("a"))),
        Some(ClientMessage::PlayerLeft(String::from("a")))
    );
    assert_eq!(r(InternalMessage::Kick(String::from("a"))), Some(ClientMessage::Kick(String::from("a"))));
    assert_eq!(
        r(InternalMessage::TimeOutClient(String::from("a"))),
        Some(ClientMessage::TimeOutClient(String::from("a")))
    );
    assert_eq!(r(InternalMessage::RejectClient(String::from("a"))), None);
    assert_eq!(r(InternalMessage::Custom(5)), None);
}

#[test]
fn server_starts_game_only_on_message_with_enough_players_and_quorum() {
    let mut lobby: Lobby<u8> = Lobby::new();
    let a = join(&mut lobby, "a");
    join(&mut lobby, "b");
    join(&mut lobby, "c");
    lobby.handle_start_message::<u8>(a, Some(StartMessage::VoteStart(true)));
    let vote = InternalMessage::VoteStart(String::from("a"), true);
    let poll = lobby.receive_client_message::<u8>(2, Some(vote.clone()), true);
    assert!(poll.start_game);
    assert_eq!(poll.broadcast, Some(ClientMessage::VoteStart(String::from("a"), true, 1, 1)));
    assert!(!lobby.receive_client_message::<u8>(3, Some(vote.clone()), true).start_game);
    assert!(!lobby.receive_client_message::<u8>(2, Some(vote), false).start_game);
    let idle = lobby.receive_client_message::<u8>(0, None, true);
    assert!(!idle.start_game);
    assert_eq!(idle.broadcast, None);
}

#[test]
fn new_round_resets_votes_and_accepting_depends_on_count() {
    let mut lobby: Lobby<u8> = Lobby::new();
    let a = join(&mut lobby, "a");
    lobby.handle_start_message::<u8>(a, Some(StartMessage::VoteStart(true)));
    assert!(lobby.can_accept_player(2));
    assert!(!lobby.can_accept_player(1));
    lobby.begin_round();
    assert_eq!(lobby.num_votes(), 0);
    assert_eq!(lobby.num_players(), 1);
}
