//! An ordered stack of card identifiers: the draw deck and the trash pile.

use vstd::prelude::*;
use vstd::multiset::Multiset;
use rand::seq::SliceRandom;

use crate::cards::CardId;
use crate::cards::Rank;
use crate::cards::all_card_ids;
use crate::cards::all_card_ids_seq;
use crate::cards::card_from_id;
use crate::cards::spec_rank_of_id;
use crate::cards::valid_card_ids;

verus! {

/// Shuffles the card ids in place.
///
/// Relies on rand's `SliceRandom::shuffle`: it shuffles the slice in place,
/// producing a permutation of the elements, so the length and the multiset
/// of elements are unchanged.
#[verifier::external_body]
fn shuffle_ids(ids: &mut Vec<CardId>)
    ensures
        final(ids)@.len() == old(ids)@.len(),
        final(ids)@.to_multiset() == old(ids)@.to_multiset(),
{
    ids.shuffle(&mut rand::rng());
}

/// The effective rank of a trash pile, scanned from the top: the rank of
/// the first card that is not a Three; Two if the pile is empty or holds
/// only Threes (meaning anything may be placed).
pub open spec fn spec_effective_trash_rank(s: Seq<CardId>) -> Rank
    decreases s.len(),
{
    if s.len() == 0 {
        Rank::Two
    } else if spec_rank_of_id(s.last()) != Rank::Three {
        spec_rank_of_id(s.last())
    } else {
        spec_effective_trash_rank(s.drop_last())
    }
}

/// The effective trash rank is never a Three: a Three is transparent, the
/// scan always skips it.
pub proof fn lemma_effective_trash_rank_not_three(s: Seq<CardId>)
    ensures
        spec_effective_trash_rank(s) != Rank::Three,
    decreases s.len(),
{
    if s.len() != 0 && spec_rank_of_id(s.last()) == Rank::Three {
        lemma_effective_trash_rank_not_three(s.drop_last());
    }
}

/// A sequence whose multiset of elements is that of the whole catalog
/// holds only catalog indices.
pub proof fn lemma_catalog_multiset_valid(s: Seq<CardId>)
    requires
        s.to_multiset() == all_card_ids_seq().to_multiset(),
    ensures
        valid_card_ids(s),
{
    broadcast use vstd::seq_lib::group_to_multiset_ensures;

    let all = all_card_ids_seq();
    assert forall|i: int| 0 <= i < s.len() implies crate::cards::valid_card_id(
        #[trigger] s[i],
    ) by {
        assert(s.contains(s[i]));
        assert(s.to_multiset().count(s[i]) > 0);
        assert(all.contains(s[i]));
        let j = choose|j: int| 0 <= j < all.len() && all[j] == s[i];
        assert(all[j] == CardId(j as usize));
    }
}

/// A deck of cards
#[derive(Debug)]
pub struct CardsDeck {
    /// The cards in the deck, ordered from bottom to top, such that the card
    /// at index `0` is at the bottom of the deck, and the card at index
    /// `cards.len() - 1` is the card at the top of the deck.
    cards: Vec<CardId>,
}

impl View for CardsDeck {
    type V = Seq<CardId>;

    closed spec fn view(&self) -> Seq<CardId> {
        self.cards@
    }
}

impl CardsDeck {
    /// Creates a shuffled deck of cards holding every card of the catalog
    /// exactly once, in an arbitrary order.
    pub fn shuffled() -> (r: Self)
        ensures
            r@.len() == all_card_ids_seq().len(),
            r@.to_multiset() == all_card_ids_seq().to_multiset(),
    {
        let mut card_ids = all_card_ids();
        shuffle_ids(&mut card_ids);
        Self { cards: card_ids }
    }

    /// Creates an empty deck of cards.
    pub fn empty() -> (r: Self)
        ensures
            r@.len() == 0,
    {
        Self { cards: Vec::new() }
    }

    /// Creates a deck holding the given cards, ordered from bottom to top.
    pub fn from_cards(cards: Vec<CardId>) -> (r: Self)
        ensures
            r@ == cards@,
    {
        Self { cards }
    }

    /// Takes cards from the top of the deck. Fails, leaving the deck
    /// unchanged, if the deck holds fewer cards than asked for.
    pub fn take_cards_from_top(&mut self, amount: usize) -> (r: Option<Vec<CardId>>)
        ensures
            amount > old(self)@.len() ==> r is None && final(self)@ == old(self)@,
            amount <= old(self)@.len() ==> {
                &&& final(self)@ == old(self)@.subrange(0, old(self)@.len() - amount)
                &&& r matches Some(taken) && taken@ == old(self)@.subrange(
                    old(self)@.len() - amount,
                    old(self)@.len() as int,
                )
            },
    {
        if amount > self.cards.len() {
            return None;
        }
        let taken = self.cards.split_off(self.cards.len() - amount);
        Some(taken)
    }

    /// Returns the card at the top of this deck
    pub fn top_card(&self) -> (r: Option<CardId>)
        ensures
            self@.len() == 0 ==> r is None,
            self@.len() > 0 ==> r == Some(self@.last()),
    {
        if self.cards.len() == 0 {
            None
        } else {
            Some(self.cards[self.cards.len() - 1])
        }
    }

    /// The cards in the deck, ordered from bottom to top, such that the card
    /// at index `0` is at the bottom of the deck, and the card at index
    /// `length - 1` is the card at the top of the deck.
    pub fn cards_bottom_to_top(&self) -> (r: &[CardId])
        ensures
            r@ == self@,
    {
        self.cards.as_slice()
    }

    /// Takes all the cards from the deck, leaving it empty. Never fails.
    pub fn take_all(&mut self) -> (r: Vec<CardId>)
        ensures
            r@ == old(self)@,
            final(self)@.len() == 0,
    {
        self.cards.split_off(0)
    }

    /// The effective rank of this deck when it is used as the trash pile:
    /// the rank of the topmost card that is not a Three, or Two if there is
    /// no such card. This, never the raw top card, is the rank placement is
    /// checked against.
    pub fn effective_trash_rank(&self) -> (r: Rank)
        requires
            valid_card_ids(self@),
        ensures
            r == spec_effective_trash_rank(self@),
            r != Rank::Three,
    {
        proof {
            lemma_effective_trash_rank_not_three(self@);
            assert(self@.take(self@.len() as int) =~= self@);
        }
        let mut i: usize = self.cards.len();
        while i > 0
            invariant
                i <= self@.len(),
                valid_card_ids(self@),
                spec_effective_trash_rank(self@) == spec_effective_trash_rank(self@.take(i as int)),
            decreases i,
        {
            let card = card_from_id(self.cards[i - 1]);
            proof {
                assert(self@.take(i as int).last() == self@[i - 1]);
                assert(self@.take(i as int).drop_last() =~= self@.take(i - 1));
            }
            if card.rank != Rank::Three {
                return card.rank;
            }
            i = i - 1;
        }
        proof {
            assert(self@.take(0).len() == 0);
        }
        Rank::Two
    }
}

} // verus!
