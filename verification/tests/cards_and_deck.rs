//! The card catalog, the placement rule, and the deck operations.

use shithead_game_server::Card;
use shithead_game_server::CardId;
use shithead_game_server::CardsById;
use shithead_game_server::CardsDeck;
use shithead_game_server::Rank;
use shithead_game_server::Suit;
use shithead_game_server::cards::all_card_ids;

#[test]
fn catalog_has_every_rank_in_every_suit_plus_two_jokers() {
    let catalog = CardsById::new();
    // 13 non-joker ranks in 4 suits each, plus 2 jokers
    assert_eq!(catalog.cards_amount(), 54);
    assert_eq!(all_card_ids().len(), 54);

    assert_eq!(
        catalog.get_card(CardId::from_raw(0)),
        Card { rank: Rank::Two, suit: Suit::Spades }
    );
    assert_eq!(
        catalog.get_card(CardId::from_raw(5)),
        Card { rank: Rank::Three, suit: Suit::Hearts }
    );
    assert_eq!(
        catalog.get_card(CardId::from_raw(51)),
        Card { rank: Rank::Ace, suit: Suit::Clubs }
    );
    assert_eq!(
        catalog.get_card(CardId::from_raw(52)),
        Card { rank: Rank::Joker, suit: Suit::Spades }
    );
    assert_eq!(
        catalog.get_card(CardId::from_raw(53)),
        Card { rank: Rank::Joker, suit: Suit::Hearts }
    );

    // only the jokers are restricted to two suit slots
    let mut joker_count = 0;
    for id in all_card_ids() {
        if catalog.get_card(id).rank == Rank::Joker {
            joker_count += 1;
        }
    }
    assert_eq!(joker_count, 2);
}

#[test]
fn placement_rule_follows_the_table() {
    let two_of = |rank: Rank| Card { rank, suit: Suit::Spades };

    // a Two resets: everything goes on it
    assert!(two_of(Rank::Two).can_be_placed_on(Rank::Two));
    assert!(two_of(Rank::Joker).can_be_placed_on(Rank::Two));
    assert!(two_of(Rank::Five).can_be_placed_on(Rank::Two));

    // on a Seven only ranks up to Seven are legal
    assert!(two_of(Rank::Two).can_be_placed_on(Rank::Seven));
    assert!(two_of(Rank::Seven).can_be_placed_on(Rank::Seven));
    assert!(!two_of(Rank::Eight).can_be_placed_on(Rank::Seven));
    assert!(!two_of(Rank::Ace).can_be_placed_on(Rank::Seven));

    // otherwise the placed rank must be at least the target rank
    assert!(two_of(Rank::Queen).can_be_placed_on(Rank::Jack));
    assert!(two_of(Rank::Jack).can_be_placed_on(Rank::Jack));
    assert!(!two_of(Rank::Ten).can_be_placed_on(Rank::Jack));
    assert!(two_of(Rank::Joker).can_be_placed_on(Rank::Ace));
    assert!(!two_of(Rank::Four).can_be_placed_on(Rank::Five));
}

// ids by rank: rank index r (Two = 0) in suit s is r * 4 + s
const THREE_A: usize = 4;
const THREE_B: usize = 5;
const FOUR_A: usize = 8;

#[test]
fn effective_trash_rank_skips_threes() {
    // bottom-to-top [Four, Three, Three] resolves to Four
    let trash = CardsDeck::from_cards(vec![
        CardId::from_raw(FOUR_A),
        CardId::from_raw(THREE_A),
        CardId::from_raw(THREE_B),
    ]);
    assert_eq!(trash.effective_trash_rank(), Rank::Four);
}

#[test]
fn effective_trash_rank_of_only_threes_is_two() {
    let trash = CardsDeck::from_cards(vec![
        CardId::from_raw(THREE_A),
        CardId::from_raw(THREE_B),
    ]);
    assert_eq!(trash.effective_trash_rank(), Rank::Two);
}

#[test]
fn effective_trash_rank_of_empty_trash_is_two() {
    let trash = CardsDeck::empty();
    assert_eq!(trash.effective_trash_rank(), Rank::Two);
}

#[test]
fn take_cards_from_top_takes_the_top_and_fails_without_mutation() {
    let mut deck = CardsDeck::from_cards(vec![
        CardId::from_raw(0),
        CardId::from_raw(1),
        CardId::from_raw(2),
    ]);
    assert_eq!(deck.top_card(), Some(CardId::from_raw(2)));

    // asking for more than the deck holds fails and changes nothing
    assert!(deck.take_cards_from_top(4).is_none());
    assert_eq!(deck.cards_bottom_to_top().len(), 3);
    assert_eq!(deck.top_card(), Some(CardId::from_raw(2)));

    let taken = deck.take_cards_from_top(2).unwrap();
    assert_eq!(taken, vec![CardId::from_raw(1), CardId::from_raw(2)]);
    assert_eq!(deck.cards_bottom_to_top(), &[CardId::from_raw(0)]);
}

#[test]
fn take_all_drains_the_deck() {
    let mut deck = CardsDeck::from_cards(vec![CardId::from_raw(7), CardId::from_raw(9)]);
    let all = deck.take_all();
    assert_eq!(all, vec![CardId::from_raw(7), CardId::from_raw(9)]);
    assert!(deck.cards_bottom_to_top().is_empty());
    assert_eq!(deck.top_card(), None);
    // draining an already empty deck never fails
    assert!(deck.take_all().is_empty());
}

#[test]
fn shuffled_deck_holds_every_card_exactly_once() {
    let mut deck = CardsDeck::shuffled();
    let mut raws: Vec<usize> = deck.take_all().iter().map(|id| id.raw()).collect();
    raws.sort();
    let expected: Vec<usize> = (0..54).collect();
    assert_eq!(raws, expected);
}
