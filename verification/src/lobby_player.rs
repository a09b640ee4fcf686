//! The per-lobby hand state of one player, and the choice of which of the
//! player's cards may be placed on a given effective trash rank.

use vstd::prelude::*;
use vstd::multiset::Multiset;

use crate::cards::CardId;
use crate::cards::Rank;
use crate::cards::copy_ids;
use crate::cards::card_from_id;
use crate::cards::spec_can_be_placed_on;
use crate::cards::spec_rank_of_id;
use crate::cards::valid_card_ids;

verus! {

/// The cards a player holds in one lobby: the hand, the face-up reserve
/// visible to everyone, and the face-down reserve played blind.
#[derive(Debug, Clone, PartialEq, Eq)]
pub struct LobbyPlayer {
    pub cards_in_hand: Vec<CardId>,
    pub three_up_cards: Vec<CardId>,
    pub three_down_cards: Vec<CardId>,
}

/// Every card the player holds, over all three piles.
pub open spec fn player_cards_multiset(p: LobbyPlayer) -> Multiset<CardId> {
    p.cards_in_hand@.to_multiset().add(p.three_up_cards@.to_multiset()).add(
        p.three_down_cards@.to_multiset(),
    )
}

/// Whether every card id the player holds is an index into the catalog.
pub open spec fn player_valid_ids(p: LobbyPlayer) -> bool {
    &&& valid_card_ids(p.cards_in_hand@)
    &&& valid_card_ids(p.three_up_cards@)
    &&& valid_card_ids(p.three_down_cards@)
}

/// Whether a single card may be placed on the given effective rank.
pub open spec fn spec_id_placeable(id: CardId, on_rank: Rank) -> bool {
    spec_can_be_placed_on(spec_rank_of_id(id), on_rank)
}

/// The cards of a pile that may be placed on the given effective rank, in
/// pile order.
pub open spec fn spec_placeable_from(cards: Seq<CardId>, on_rank: Rank) -> Seq<CardId> {
    cards.filter(|id: CardId| spec_id_placeable(id, on_rank))
}

/// The cards the player may play against the given effective rank. The
/// eligible source pile is chosen by a strict precedence: a non-empty hand
/// first, then non-empty up-cards; hand and up-cards are filtered by
/// legality. Only when both are empty are the down-cards eligible, and then
/// unconditionally, since they are played blind.
pub open spec fn spec_placeable_cards(p: LobbyPlayer, on_rank: Rank) -> Seq<CardId> {
    if p.cards_in_hand@.len() > 0 {
        spec_placeable_from(p.cards_in_hand@, on_rank)
    } else if p.three_up_cards@.len() > 0 {
        spec_placeable_from(p.three_up_cards@, on_rank)
    } else {
        p.three_down_cards@
    }
}

/// Collects the cards of one pile that may be placed on the given rank.
fn placeable_from(cards: &Vec<CardId>, on_rank: Rank) -> (r: Vec<CardId>)
    requires
        valid_card_ids(cards@),
        on_rank != Rank::Three,
        on_rank != Rank::Ten,
        on_rank != Rank::Joker,
    ensures
        r@ == spec_placeable_from(cards@, on_rank),
{
    let ghost pred = |id: CardId| spec_id_placeable(id, on_rank);
    let mut r: Vec<CardId> = Vec::new();
    let mut i: usize = 0;
    while i < cards.len()
        invariant
            i <= cards@.len(),
            valid_card_ids(cards@),
            on_rank != Rank::Three,
            on_rank != Rank::Ten,
            on_rank != Rank::Joker,
            pred == (|id: CardId| spec_id_placeable(id, on_rank)),
            r@ == cards@.take(i as int).filter(pred),
        decreases cards@.len() - i,
    {
        let id = cards[i];
        let card = card_from_id(id);
        proof {
            assert(cards@.take(i + 1).drop_last() =~= cards@.take(i as int));
            assert(cards@.take(i + 1).last() == cards@[i as int]);
            reveal_with_fuel(Seq::filter, 2);
        }
        if card.can_be_placed_on(on_rank) {
            r.push(id);
        }
        i = i + 1;
    }
    proof {
        assert(cards@.take(cards@.len() as int) =~= cards@);
    }
    r
}

impl LobbyPlayer {
    /// Creates a new lobby player without any cards.
    pub fn without_any_cards() -> (r: Self)
        ensures
            r.cards_in_hand@.len() == 0,
            r.three_up_cards@.len() == 0,
            r.three_down_cards@.len() == 0,
    {
        Self { cards_in_hand: Vec::new(), three_up_cards: Vec::new(), three_down_cards: Vec::new() }
    }

    /// A copy of this hand state, holding the same cards in the same
    /// order.
    pub fn duplicate(&self) -> (r: Self)
        ensures
            r.cards_in_hand@ == self.cards_in_hand@,
            r.three_up_cards@ == self.three_up_cards@,
            r.three_down_cards@ == self.three_down_cards@,
    {
        LobbyPlayer {
            cards_in_hand: copy_ids(&self.cards_in_hand),
            three_up_cards: copy_ids(&self.three_up_cards),
            three_down_cards: copy_ids(&self.three_down_cards),
        }
    }

    /// Returns the ids of the player's cards which can be placed on the
    /// given card rank, in pile order. The rank must be an effective trash
    /// rank: never Three, Ten or Joker.
    pub fn what_cards_can_be_placed_on(&self, on_rank: Rank) -> (r: Vec<CardId>)
        requires
            player_valid_ids(*self),
            on_rank != Rank::Three,
            on_rank != Rank::Ten,
            on_rank != Rank::Joker,
        ensures
            r@ == spec_placeable_cards(*self, on_rank),
    {
        if self.cards_in_hand.len() > 0 {
            placeable_from(&self.cards_in_hand, on_rank)
        } else if self.three_up_cards.len() > 0 {
            placeable_from(&self.three_up_cards, on_rank)
        } else {
            let mut r: Vec<CardId> = Vec::new();
            let mut i: usize = 0;
            while i < self.three_down_cards.len()
                invariant
                    i <= self.three_down_cards@.len(),
                    r@ == self.three_down_cards@.take(i as int),
                decreases self.three_down_cards@.len() - i,
            {
                r.push(self.three_down_cards[i]);
                proof {
                    assert(r@ =~= self.three_down_cards@.take(i + 1));
                }
                i = i + 1;
            }
            proof {
                assert(self.three_down_cards@.take(self.three_down_cards@.len() as int)
                    =~= self.three_down_cards@);
            }
            r
        }
    }
}

} // verus!
