//! End-to-end scenarios over the server state and the session layer.

use shithead_game_server::CardId;
use shithead_game_server::ClickedCardLocation;
use shithead_game_server::ClientId;
use shithead_game_server::ClientMessage;
use shithead_game_server::ClientSession;
use shithead_game_server::ExposedLobbyPlayerInfo;
use shithead_game_server::GameServerError;
use shithead_game_server::GameServerState;
use shithead_game_server::JoinLobbyError;
use shithead_game_server::Lobby;
use shithead_game_server::LobbyId;
use shithead_game_server::LobbyPlayer;
use shithead_game_server::OrderedLobbyPlayers;
use shithead_game_server::ServerMessage;
use shithead_game_server::SessionEffect;
use shithead_game_server::StartGameError;
use shithead_game_server::MAX_PLAYERS_IN_LOBBY;

/// Registers `n` fresh clients with their default usernames.
fn connect_clients(server: &mut GameServerState, n: usize) -> Vec<ClientId> {
    let mut ids = Vec::new();
    for _ in 0..n {
        let id = server.next_client_id();
        server.add_client(id, format!("user{}", id.raw()));
        ids.push(id);
    }
    ids
}

/// A lobby with the given members, the first of which created it.
fn lobby_with(server: &mut GameServerState, members: &[ClientId]) -> LobbyId {
    let lobby_id = server.create_lobby("Foo".to_string(), members[0]);
    for player in &members[1..] {
        server.join_lobby(*player, lobby_id).unwrap();
    }
    lobby_id
}

/// Starts the game and runs the selection phase to its timeout, leaving
/// the lobby in active play with the first player's turn.
fn start_and_deal(server: &mut GameServerState, owner: ClientId, lobby_id: LobbyId) {
    server.start_game(owner, lobby_id).unwrap();
    let timer = server.get_lobby(lobby_id).unwrap().pending_timer().unwrap();
    server.choose_3_up_timeout(lobby_id, timer);
}

#[test]
fn create_join_lobby() {
    let mut server = GameServerState::new();
    let clients = connect_clients(&mut server, 2);
    let mut creating_session = ClientSession::new(clients[0]);
    let mut joining_session = ClientSession::new(clients[1]);

    // the creator gets a join confirmation with an empty player list
    let effects = creating_session.handle_message(
        &mut server,
        ClientMessage::CreateLobby { lobby_name: "Foo".to_string() },
    );
    assert_eq!(
        effects,
        vec![SessionEffect::Reply(ServerMessage::JoinLobby {
            lobby_id: LobbyId::from_raw(0),
            players: vec![],
        })]
    );

    // the joiner sees the creator; the lobby hears about the joiner
    let effects = joining_session.handle_message(
        &mut server,
        ClientMessage::JoinLobby(LobbyId::from_raw(0)),
    );
    assert_eq!(
        effects,
        vec![
            SessionEffect::BroadcastLobby(
                LobbyId::from_raw(0),
                ServerMessage::PlayerJoinedLobby(ExposedLobbyPlayerInfo {
                    id: ClientId::from_raw(1),
                    username: "user1".to_string(),
                }),
            ),
            SessionEffect::Reply(ServerMessage::JoinLobby {
                lobby_id: LobbyId::from_raw(0),
                players: vec![ExposedLobbyPlayerInfo {
                    id: ClientId::from_raw(0),
                    username: "user0".to_string(),
                }],
            }),
        ]
    );
}

#[test]
fn starting_deals_and_the_selection_timeout_completes_every_player() {
    let mut server = GameServerState::new();
    let clients = connect_clients(&mut server, 2);
    let lobby_id = lobby_with(&mut server, &clients);

    server.start_game(clients[0], lobby_id).unwrap();

    // both players hold the configured counts
    for client in &clients {
        let lobby = server.get_lobby(lobby_id).unwrap();
        let player = lobby.get_player(*client).unwrap();
        assert_eq!(player.cards_in_hand.len(), 6);
        assert_eq!(player.three_up_cards.len(), 0);
        assert_eq!(player.three_down_cards.len(), 3);
    }

    // the selection timer elapses with no input
    let timer = server.get_lobby(lobby_id).unwrap().pending_timer().unwrap();
    let evs = server.choose_3_up_timeout(lobby_id, timer);

    // both players were auto-completed to exactly 3 up cards
    assert_eq!(evs.len(), 2);
    match &evs[0] {
        ServerMessage::TheeUpSelectionDone { three_up_cards_of_modified_players } => {
            assert_eq!(three_up_cards_of_modified_players.len(), 2);
            assert_eq!(three_up_cards_of_modified_players[0].0, clients[0]);
            assert_eq!(three_up_cards_of_modified_players[1].0, clients[1]);
            assert_eq!(three_up_cards_of_modified_players[0].1.len(), 3);
            assert_eq!(three_up_cards_of_modified_players[1].1.len(), 3);
        }
        other => panic!("expected the selection-done announcement, got {:?}", other),
    }
    // the first player in turn order is seated
    assert_eq!(evs[1], ServerMessage::Turn(clients[0]));

    let lobby = server.get_lobby(lobby_id).unwrap();
    assert_eq!(lobby.current_turn_player_id(), Some(clients[0]));
    for client in &clients {
        let player = lobby.get_player(*client).unwrap();
        assert_eq!(player.cards_in_hand.len(), 3);
        assert_eq!(player.three_up_cards.len(), 3);
        assert_eq!(player.three_down_cards.len(), 3);
    }

    // a stale selection timer fires into the void
    assert!(server.choose_3_up_timeout(lobby_id, timer).is_empty());
}

#[test]
fn trash_cannot_be_claimed_while_a_card_can_be_played() {
    let mut server = GameServerState::new();
    let clients = connect_clients(&mut server, 2);
    let lobby_id = lobby_with(&mut server, &clients);
    start_and_deal(&mut server, clients[0], lobby_id);

    let hand_before = server
        .get_lobby(lobby_id)
        .unwrap()
        .cards_in_hand_of(clients[0])
        .unwrap();

    // the trash is empty, so its effective rank is Two and everything is
    // playable: the claim must fail and nothing may change
    let result = server.click_card(clients[0], lobby_id, ClickedCardLocation::Trash);
    assert_eq!(
        result,
        Err(GameServerError::CantTakeTrashBecauseSomeCardsCanBePlayed)
    );

    let lobby = server.get_lobby(lobby_id).unwrap();
    assert_eq!(lobby.current_turn_player_id(), Some(clients[0]));
    assert_eq!(lobby.cards_in_hand_of(clients[0]).unwrap(), hand_before);
}

#[test]
fn only_the_current_player_may_click() {
    let mut server = GameServerState::new();
    let clients = connect_clients(&mut server, 2);
    let lobby_id = lobby_with(&mut server, &clients);
    start_and_deal(&mut server, clients[0], lobby_id);

    let result = server.click_card(clients[1], lobby_id, ClickedCardLocation::Trash);
    assert_eq!(result, Err(GameServerError::NotYourTurn));
}

#[test]
fn turn_timeout_fires_exactly_once_and_advances_the_turn() {
    let mut server = GameServerState::new();
    let clients = connect_clients(&mut server, 2);
    let lobby_id = lobby_with(&mut server, &clients);
    start_and_deal(&mut server, clients[0], lobby_id);

    let timer = server.get_lobby(lobby_id).unwrap().pending_timer().unwrap();
    let evs = server.turn_timeout(lobby_id, timer);

    // the trash (here empty) goes to the timed-out player, and exactly one
    // turn change is announced
    assert_eq!(
        evs,
        vec![
            ServerMessage::GiveTrash(clients[0]),
            ServerMessage::Turn(clients[1]),
        ]
    );
    let lobby = server.get_lobby(lobby_id).unwrap();
    assert_eq!(lobby.current_turn_player_id(), Some(clients[1]));
    match lobby.state() {
        shithead_game_server::LobbyState::GameStarted(state) => {
            assert!(state.trash.cards_bottom_to_top().is_empty());
        }
        other => panic!("expected active play, got {:?}", other),
    }

    // the same timer handle cannot fire twice
    assert!(server.turn_timeout(lobby_id, timer).is_empty());
}

#[test]
fn removing_the_current_player_advances_the_turn_first() {
    let mut server = GameServerState::new();
    let clients = connect_clients(&mut server, 3);
    let lobby_id = lobby_with(&mut server, &clients);
    start_and_deal(&mut server, clients[0], lobby_id);

    // the current player disconnects: the turn moves on before the roster
    // shrinks, visible in the order of the broadcasts
    let evs = server
        .remove_player_from_lobby(clients[0], lobby_id)
        .unwrap();
    assert_eq!(
        evs,
        vec![
            ServerMessage::Turn(clients[1]),
            ServerMessage::OwnerLeftLobby { new_owner_id: clients[1] },
        ]
    );
    let lobby = server.get_lobby(lobby_id).unwrap();
    assert_eq!(lobby.players_amount(), 2);
    assert_eq!(lobby.current_turn_player_id(), Some(clients[1]));
    assert_eq!(lobby.owner_id(), clients[1]);

    // when only one player would remain, the game stops instead
    let evs = server
        .remove_player_from_lobby(clients[1], lobby_id)
        .unwrap();
    assert_eq!(
        evs,
        vec![
            ServerMessage::Turn(clients[2]),
            ServerMessage::OwnerLeftLobby { new_owner_id: clients[2] },
        ]
    );
    let lobby = server.get_lobby(lobby_id).unwrap();
    assert_eq!(lobby.players_amount(), 1);
    assert!(lobby.is_waiting());

    // the last player leaving destroys the lobby
    server
        .remove_player_from_lobby(clients[2], lobby_id)
        .unwrap();
    assert!(server.get_lobby(lobby_id).is_none());
    assert!(server.exposed_lobby_list().is_empty());
}

#[test]
fn selection_clicks_move_cards_between_hand_and_up() {
    let mut server = GameServerState::new();
    let clients = connect_clients(&mut server, 2);
    let lobby_id = lobby_with(&mut server, &clients);
    server.start_game(clients[0], lobby_id).unwrap();

    let evs = server
        .click_card(clients[1], lobby_id, ClickedCardLocation::FromCardsInHand { card_index: 0 })
        .unwrap();
    assert_eq!(
        evs,
        vec![ServerMessage::MovePlayerCardFromHandToThreeUp {
            hand_card_index: 0,
            player_id: clients[1],
        }]
    );
    {
        let lobby = server.get_lobby(lobby_id).unwrap();
        let player = lobby.get_player(clients[1]).unwrap();
        assert_eq!(player.cards_in_hand.len(), 5);
        assert_eq!(player.three_up_cards.len(), 1);
    }

    let evs = server
        .click_card(clients[1], lobby_id, ClickedCardLocation::FromThreeUpCards { card_index: 0 })
        .unwrap();
    assert_eq!(
        evs,
        vec![ServerMessage::MovePlayerCardFromThreeUpToHand {
            up_three_card_index: 0,
            player_id: clients[1],
        }]
    );
    {
        let lobby = server.get_lobby(lobby_id).unwrap();
        let player = lobby.get_player(clients[1]).unwrap();
        assert_eq!(player.cards_in_hand.len(), 6);
        assert_eq!(player.three_up_cards.len(), 0);
    }

    // an out-of-range index is refused
    let result = server.click_card(
        clients[1],
        lobby_id,
        ClickedCardLocation::FromCardsInHand { card_index: 6 },
    );
    assert_eq!(result, Err(GameServerError::NoSuchCard));

    // players already satisfied are not in the selection-done announcement
    for _ in 0..3 {
        server
            .click_card(
                clients[0],
                lobby_id,
                ClickedCardLocation::FromCardsInHand { card_index: 0 },
            )
            .unwrap();
    }
    let timer = server.get_lobby(lobby_id).unwrap().pending_timer().unwrap();
    let evs = server.choose_3_up_timeout(lobby_id, timer);
    match &evs[0] {
        ServerMessage::TheeUpSelectionDone { three_up_cards_of_modified_players } => {
            assert_eq!(three_up_cards_of_modified_players.len(), 1);
            assert_eq!(three_up_cards_of_modified_players[0].0, clients[1]);
        }
        other => panic!("expected the selection-done announcement, got {:?}", other),
    }
}

#[test]
fn join_errors_cover_every_refusal() {
    let mut server = GameServerState::new();
    let clients = connect_clients(&mut server, MAX_PLAYERS_IN_LOBBY + 1);

    // no such lobby
    assert_eq!(
        server.join_lobby(clients[0], LobbyId::from_raw(7)),
        Err(JoinLobbyError::NoSuchLobby)
    );

    let lobby_id = server.create_lobby("Foo".to_string(), clients[0]);

    // joining a lobby twice
    assert_eq!(
        server.join_lobby(clients[0], lobby_id),
        Err(JoinLobbyError::AlreadyInALobby)
    );

    // filling it to the cap, then one more
    for client in &clients[1..MAX_PLAYERS_IN_LOBBY] {
        server.join_lobby(*client, lobby_id).unwrap();
    }
    assert_eq!(
        server.join_lobby(clients[MAX_PLAYERS_IN_LOBBY], lobby_id),
        Err(JoinLobbyError::LobbyFull)
    );

    // once the game started nobody may join; one seat is freed first so
    // the capacity check cannot mask the state check
    server
        .remove_player_from_lobby(clients[MAX_PLAYERS_IN_LOBBY - 1], lobby_id)
        .unwrap();
    server.start_game(clients[0], lobby_id).unwrap();
    assert_eq!(
        server.join_lobby(clients[MAX_PLAYERS_IN_LOBBY], lobby_id),
        Err(JoinLobbyError::GameAlreadyStarted)
    );
}

#[test]
fn start_errors_cover_every_refusal() {
    let mut server = GameServerState::new();
    let clients = connect_clients(&mut server, 2);

    assert_eq!(
        server.start_game(clients[0], LobbyId::from_raw(3)),
        Err(StartGameError::NoSuchLobby)
    );

    let lobby_id = lobby_with(&mut server, &clients);
    assert_eq!(
        server.start_game(clients[1], lobby_id),
        Err(StartGameError::NotOwner)
    );

    server.start_game(clients[0], lobby_id).unwrap();
    assert_eq!(
        server.start_game(clients[0], lobby_id),
        Err(StartGameError::GameAlreadyStarted)
    );
}

#[test]
fn clicking_before_the_game_starts_is_refused() {
    let mut server = GameServerState::new();
    let clients = connect_clients(&mut server, 2);
    let lobby_id = lobby_with(&mut server, &clients);

    let result = server.click_card(clients[0], lobby_id, ClickedCardLocation::Trash);
    assert_eq!(result, Err(GameServerError::GameHasntStartedYet));
}

#[test]
fn username_cannot_change_inside_a_lobby() {
    let mut server = GameServerState::new();
    let clients = connect_clients(&mut server, 1);
    let mut session = ClientSession::new(clients[0]);

    // renaming works while outside a lobby, silently
    let effects = session.handle_message(
        &mut server,
        ClientMessage::SetUsername("renamed".to_string()),
    );
    assert!(effects.is_empty());

    session.handle_message(
        &mut server,
        ClientMessage::CreateLobby { lobby_name: "Foo".to_string() },
    );
    let effects = session.handle_message(
        &mut server,
        ClientMessage::SetUsername("again".to_string()),
    );
    assert_eq!(
        effects,
        vec![SessionEffect::Reply(ServerMessage::Error(
            "can't change username inside a lobby".to_string()
        ))]
    );
}

#[test]
fn cleanup_leaves_the_lobby_before_the_client_registry() {
    let mut server = GameServerState::new();
    let clients = connect_clients(&mut server, 2);
    let lobby_id = lobby_with(&mut server, &clients);

    let mut session = ClientSession::new(clients[1]);
    session.lobby_id = Some(lobby_id);

    let effects = session.cleanup(&mut server);
    assert_eq!(
        effects,
        vec![SessionEffect::BroadcastLobby(
            lobby_id,
            ServerMessage::PlayerLeftLobby(clients[1]),
        )]
    );
    // the lobby no longer lists the departed client anywhere
    let lobby = server.get_lobby(lobby_id).unwrap();
    assert_eq!(lobby.player_ids(), vec![clients[0]]);
    assert!(lobby.get_player(clients[1]).is_none());
}

#[test]
fn lobby_list_shows_names_owners_and_members() {
    let mut server = GameServerState::new();
    let clients = connect_clients(&mut server, 2);
    let lobby_id = lobby_with(&mut server, &clients);

    let list = server.exposed_lobby_list();
    assert_eq!(list.len(), 1);
    assert_eq!(list[0].id, lobby_id);
    assert_eq!(list[0].name, "Foo");
    assert_eq!(list[0].owner_id, clients[0]);
    assert_eq!(
        list[0].players,
        vec![
            ExposedLobbyPlayerInfo { id: clients[0], username: "user0".to_string() },
            ExposedLobbyPlayerInfo { id: clients[1], username: "user1".to_string() },
        ]
    );
}

#[test]
fn session_errors_reply_without_changing_anything() {
    let mut server = GameServerState::new();
    let clients = connect_clients(&mut server, 1);
    let mut session = ClientSession::new(clients[0]);

    // leaving, clicking or asking for cards while in no lobby
    let effects = session.handle_message(&mut server, ClientMessage::LeaveLobby);
    assert_eq!(
        effects,
        vec![SessionEffect::Reply(ServerMessage::Error(
            "you are not in a lobby".to_string()
        ))]
    );
    let effects = session.handle_message(
        &mut server,
        ClientMessage::ClickCard(ClickedCardLocation::Trash),
    );
    assert_eq!(
        effects,
        vec![SessionEffect::Reply(ServerMessage::Error(
            "you are not in a lobby".to_string()
        ))]
    );
    let effects = session.handle_message(&mut server, ClientMessage::GetCardsInHand);
    assert_eq!(
        effects,
        vec![SessionEffect::Reply(ServerMessage::Error(
            "you are not in a lobby".to_string()
        ))]
    );
    // starting a game from outside any lobby: surely not an owner
    let effects = session.handle_message(&mut server, ClientMessage::StartGame);
    assert_eq!(
        effects,
        vec![SessionEffect::Reply(ServerMessage::Error(
            "you are not the owner of this lobby".to_string()
        ))]
    );
    // joining twice through the session
    session.handle_message(
        &mut server,
        ClientMessage::CreateLobby { lobby_name: "Foo".to_string() },
    );
    let effects = session.handle_message(
        &mut server,
        ClientMessage::JoinLobby(LobbyId::from_raw(0)),
    );
    assert_eq!(
        effects,
        vec![SessionEffect::Reply(ServerMessage::Error(
            "you are already in a lobby".to_string()
        ))]
    );
}

#[test]
fn get_cards_in_hand_returns_the_dealt_hand() {
    let mut server = GameServerState::new();
    let clients = connect_clients(&mut server, 2);
    let lobby_id = lobby_with(&mut server, &clients);
    let mut session = ClientSession::new(clients[1]);
    session.lobby_id = Some(lobby_id);

    server.start_game(clients[0], lobby_id).unwrap();
    let expected = server
        .get_lobby(lobby_id)
        .unwrap()
        .cards_in_hand_of(clients[1])
        .unwrap();

    let effects = session.handle_message(&mut server, ClientMessage::GetCardsInHand);
    assert_eq!(
        effects,
        vec![SessionEffect::Reply(ServerMessage::CardsInHand(expected))]
    );
}

#[test]
fn a_lobby_can_be_driven_directly() {
    let a = ClientId::from_raw(0);
    let b = ClientId::from_raw(1);
    let mut lobby = Lobby::new(LobbyId::from_raw(9), "direct".to_string(), a);
    assert_eq!(lobby.id(), LobbyId::from_raw(9));
    assert_eq!(lobby.name(), "direct");
    assert_eq!(lobby.owner_id(), a);
    assert!(lobby.is_waiting());
    assert!(lobby.pending_timer().is_none());

    lobby.add_player(b);
    assert_eq!(lobby.players_amount(), 2);
    assert!(!lobby.is_empty());

    lobby.start_game();
    let selection_timer = lobby.pending_timer().unwrap();
    lobby.choose_3_up_timeout(selection_timer);
    assert_eq!(lobby.current_turn_player_id(), Some(a));

    // a finished turn passes play on and announces it
    let evs = lobby.turn_finished();
    assert_eq!(evs, vec![ServerMessage::Turn(b)]);
    assert_eq!(lobby.current_turn_player_id(), Some(b));

    // stopping the game returns to waiting and takes all cards back
    lobby.stop_game();
    assert!(lobby.is_waiting());
    assert!(lobby.pending_timer().is_none());
    let player = lobby.get_player(a).unwrap();
    assert!(player.cards_in_hand.is_empty());
    assert!(player.three_up_cards.is_empty());
    assert!(player.three_down_cards.is_empty());
}

#[test]
fn a_member_snapshot_lists_everyone_in_turn_order() {
    let mut roster = OrderedLobbyPlayers::new();
    let a = ClientId::from_raw(4);
    let b = ClientId::from_raw(2);
    roster.insert(a, LobbyPlayer::without_any_cards());
    roster.insert(b, LobbyPlayer::without_any_cards());
    roster.give_cards_to_player(b, vec![CardId::from_raw(10)]);

    let players = roster.players();
    assert_eq!(players.len(), 2);
    assert_eq!(players[0].0, a);
    assert_eq!(players[1].0, b);
    assert!(players[0].1.cards_in_hand.is_empty());
    assert_eq!(
        players[1].1.cards_in_hand,
        vec![CardId::from_raw(10)]
    );
}
