//! The timer lifecycle model, and observations of the card-location and
//! rotation invariants on a running game.

use shithead_game_server::CardId;
use shithead_game_server::ClientId;
use shithead_game_server::GameServerState;
use shithead_game_server::LobbyId;
use shithead_game_server::LobbyState;
use shithead_game_server::TimerLog;

#[test]
fn cancelling_twice_or_after_firing_changes_nothing() {
    let mut timers = TimerLog::new();
    let first = timers.create();
    let second = timers.create();

    // cancelling an armed timer wins the race: it can no longer fire
    timers.cancel(first);
    assert!(!timers.fire(first));

    // cancelling again is a no-op, not an error
    timers.cancel(first);
    assert!(!timers.fire(first));

    // a fired timer cannot be fired again, and cancelling it is a no-op
    assert!(timers.fire(second));
    assert!(!timers.fire(second));
    timers.cancel(second);
    assert!(!timers.fire(second));

    // a handle that was never armed is ignored
    timers.cancel(17);
    assert!(!timers.fire(17));
}

fn set_up_running_game(players: usize) -> (GameServerState, Vec<ClientId>, LobbyId) {
    let mut server = GameServerState::new();
    let mut clients = Vec::new();
    for _ in 0..players {
        let id = server.next_client_id();
        server.add_client(id, format!("user{}", id.raw()));
        clients.push(id);
    }
    let lobby_id = server.create_lobby("Foo".to_string(), clients[0]);
    for player in &clients[1..] {
        server.join_lobby(*player, lobby_id).unwrap();
    }
    server.start_game(clients[0], lobby_id).unwrap();
    let timer = server.get_lobby(lobby_id).unwrap().pending_timer().unwrap();
    server.choose_3_up_timeout(lobby_id, timer);
    (server, clients, lobby_id)
}

/// Collects every card in the lobby: the deck, the trash, and all piles.
fn all_cards_of(server: &GameServerState, lobby_id: LobbyId) -> Vec<CardId> {
    let lobby = server.get_lobby(lobby_id).unwrap();
    let mut cards: Vec<CardId> = Vec::new();
    match lobby.state() {
        LobbyState::GameStarted(state) => {
            cards.extend_from_slice(state.deck.cards_bottom_to_top());
            cards.extend_from_slice(state.trash.cards_bottom_to_top());
        }
        other => panic!("expected active play, got {:?}", other),
    }
    for id in lobby.player_ids() {
        let player = lobby.get_player(id).unwrap();
        cards.extend_from_slice(&player.cards_in_hand);
        cards.extend_from_slice(&player.three_up_cards);
        cards.extend_from_slice(&player.three_down_cards);
    }
    cards
}

fn assert_every_card_exactly_once(server: &GameServerState, lobby_id: LobbyId) {
    let mut raws: Vec<usize> = all_cards_of(server, lobby_id).iter().map(|c| c.raw()).collect();
    raws.sort();
    let expected: Vec<usize> = (0..54).collect();
    assert_eq!(raws, expected);
}

#[test]
fn every_card_is_in_exactly_one_place_throughout_a_game() {
    let (mut server, clients, lobby_id) = set_up_running_game(3);
    assert_every_card_exactly_once(&server, lobby_id);

    // a timed-out turn moves the trash but loses no card
    let timer = server.get_lobby(lobby_id).unwrap().pending_timer().unwrap();
    server.turn_timeout(lobby_id, timer);
    assert_every_card_exactly_once(&server, lobby_id);

    let timer = server.get_lobby(lobby_id).unwrap().pending_timer().unwrap();
    server.turn_timeout(lobby_id, timer);
    assert_every_card_exactly_once(&server, lobby_id);
    let _ = clients;
}

#[test]
fn the_full_deck_is_dealt_with_the_maximum_table() {
    // six players consume the whole catalog: 6 * (6 + 3) = 54 cards
    let (server, _clients, lobby_id) = set_up_running_game(6);
    assert_every_card_exactly_once(&server, lobby_id);
    let lobby = server.get_lobby(lobby_id).unwrap();
    match lobby.state() {
        LobbyState::GameStarted(state) => {
            assert!(state.deck.cards_bottom_to_top().is_empty());
        }
        other => panic!("expected active play, got {:?}", other),
    }
}

#[test]
fn turns_rotate_through_every_player_before_repeating() {
    let (mut server, clients, lobby_id) = set_up_running_game(4);
    let mut seen = Vec::new();
    for _ in 0..4 {
        let current = server
            .get_lobby(lobby_id)
            .unwrap()
            .current_turn_player_id()
            .unwrap();
        seen.push(current);
        let timer = server.get_lobby(lobby_id).unwrap().pending_timer().unwrap();
        server.turn_timeout(lobby_id, timer);
    }
    assert_eq!(seen, clients);
    // one full round later the first player is seated again
    assert_eq!(
        server.get_lobby(lobby_id).unwrap().current_turn_player_id(),
        Some(clients[0])
    );
}
