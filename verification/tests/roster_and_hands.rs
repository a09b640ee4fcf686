//! The ordered roster and the choice of playable cards.

use shithead_game_server::CardId;
use shithead_game_server::ClientId;
use shithead_game_server::LobbyPlayer;
use shithead_game_server::OrderedLobbyPlayers;
use shithead_game_server::Rank;

#[test]
fn insert_appends_and_remove_keeps_relative_order() {
    let mut roster = OrderedLobbyPlayers::new();
    let a = ClientId::from_raw(10);
    let b = ClientId::from_raw(11);
    let c = ClientId::from_raw(12);
    roster.insert(a, LobbyPlayer::without_any_cards());
    roster.insert(b, LobbyPlayer::without_any_cards());
    roster.insert(c, LobbyPlayer::without_any_cards());
    assert_eq!(roster.player_ids(), vec![a, b, c]);
    assert_eq!(roster.len(), 3);

    // removing the middle player keeps the rest in order
    assert!(roster.remove(b).is_some());
    assert_eq!(roster.player_ids(), vec![a, c]);

    // removing someone absent reports it and changes nothing
    assert!(roster.remove(b).is_none());
    assert_eq!(roster.player_ids(), vec![a, c]);
}

#[test]
fn reinserting_a_member_changes_nothing() {
    let mut roster = OrderedLobbyPlayers::new();
    let a = ClientId::from_raw(1);
    roster.insert(a, LobbyPlayer::without_any_cards());
    roster.insert(a, LobbyPlayer::without_any_cards());
    assert_eq!(roster.player_ids(), vec![a]);
    assert_eq!(roster.len(), 1);
}

#[test]
fn find_next_turn_player_wraps_around() {
    let mut roster = OrderedLobbyPlayers::new();
    let a = ClientId::from_raw(1);
    let b = ClientId::from_raw(2);
    let c = ClientId::from_raw(3);
    roster.insert(a, LobbyPlayer::without_any_cards());
    roster.insert(b, LobbyPlayer::without_any_cards());
    roster.insert(c, LobbyPlayer::without_any_cards());

    assert_eq!(roster.find_next_turn_player_after(a), b);
    assert_eq!(roster.find_next_turn_player_after(b), c);
    // the last player hands the turn back to the first
    assert_eq!(roster.find_next_turn_player_after(c), a);
    assert_eq!(roster.first_turn_player(), a);
}

#[test]
fn give_cards_extends_the_hand_and_ignores_absent_players() {
    let mut roster = OrderedLobbyPlayers::new();
    let a = ClientId::from_raw(1);
    roster.insert(a, LobbyPlayer::without_any_cards());

    roster.give_cards_to_player(a, vec![CardId::from_raw(3), CardId::from_raw(4)]);
    assert_eq!(
        roster.get_player(a).unwrap().cards_in_hand,
        vec![CardId::from_raw(3), CardId::from_raw(4)]
    );

    // a player who already disconnected is skipped silently
    let ghost_player = ClientId::from_raw(99);
    roster.give_cards_to_player(ghost_player, vec![CardId::from_raw(5)]);
    assert!(roster.get_player(ghost_player).is_none());
    assert_eq!(roster.len(), 1);
}

// ids by rank: rank index r (Two = 0) in suit s is r * 4 + s
const TWO: usize = 0;
const FIVE: usize = 3 * 4;
const NINE: usize = 7 * 4;
const KING: usize = 11 * 4;

fn player_with(hand: Vec<usize>, up: Vec<usize>, down: Vec<usize>) -> LobbyPlayer {
    let mut p = LobbyPlayer::without_any_cards();
    p.cards_in_hand = hand.into_iter().map(CardId::from_raw).collect();
    p.three_up_cards = up.into_iter().map(CardId::from_raw).collect();
    p.three_down_cards = down.into_iter().map(CardId::from_raw).collect();
    p
}

#[test]
fn playable_cards_come_from_the_hand_first_and_are_filtered() {
    let p = player_with(vec![TWO, FIVE, KING], vec![NINE], vec![NINE + 1]);
    // against a Nine only the King is high enough; the up-card Nine is not
    // eligible while the hand is non-empty
    let playable = p.what_cards_can_be_placed_on(Rank::Nine);
    assert_eq!(playable, vec![CardId::from_raw(KING)]);
    // against a Two everything in the hand goes
    let playable_on_two = p.what_cards_can_be_placed_on(Rank::Two);
    assert_eq!(
        playable_on_two,
        vec![CardId::from_raw(TWO), CardId::from_raw(FIVE), CardId::from_raw(KING)]
    );
}

#[test]
fn playable_cards_fall_back_to_up_cards_when_the_hand_is_empty() {
    let p = player_with(vec![], vec![FIVE, KING], vec![NINE]);
    let playable = p.what_cards_can_be_placed_on(Rank::Nine);
    assert_eq!(playable, vec![CardId::from_raw(KING)]);

    // on a Seven, only low cards qualify
    let playable_on_seven = p.what_cards_can_be_placed_on(Rank::Seven);
    assert_eq!(playable_on_seven, vec![CardId::from_raw(FIVE)]);
}

#[test]
fn down_cards_are_played_blind_without_filtering() {
    let p = player_with(vec![], vec![], vec![FIVE, NINE]);
    // down cards are chosen blind: all of them are offered, whatever the rank
    let playable = p.what_cards_can_be_placed_on(Rank::Ace);
    assert_eq!(playable, vec![CardId::from_raw(FIVE), CardId::from_raw(NINE)]);
}

#[test]
fn no_playable_cards_when_nothing_fits() {
    let p = player_with(vec![FIVE, NINE], vec![], vec![]);
    let playable = p.what_cards_can_be_placed_on(Rank::King);
    assert!(playable.is_empty());
}
