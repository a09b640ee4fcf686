//! The card catalog: ranks, suits, card identifiers, and the placement
//! legality rule of the game.

use vstd::prelude::*;

verus! {

/// Identifier of a single card in the catalog. Identifiers are indices
/// into the catalog's enumeration and are stable for the process lifetime.
#[derive(Debug, Clone, Copy, PartialEq, Eq, Hash, Structural)]
pub struct CardId(pub usize);

impl CardId {
    /// Returns the raw id as a usize
    pub fn raw(&self) -> (r: usize)
        ensures
            r == self.0,
    {
        self.0
    }

    pub fn from_raw(raw: usize) -> (r: Self)
        ensures
            r.0 == raw,
    {
        Self(raw)
    }

    /// The raw index, for use in specifications.
    pub open spec fn spec_raw(self) -> int {
        self.0 as int
    }
}

/// The rank of a card. The order of the variants is the order of the
/// ranks in the game: Two is lowest, Joker is highest.
#[derive(Debug, Clone, Copy, PartialEq, Eq, PartialOrd, Ord, Hash, Structural)]
pub enum Rank {
    Two,
    Three,
    Four,
    Five,
    Six,
    Seven,
    Eight,
    Nine,
    Ten,
    Jack,
    Queen,
    King,
    Ace,
    Joker,
}

#[derive(Debug, Clone, Copy, PartialEq, Eq, Hash, Structural)]
pub enum Suit {
    Spades,
    Hearts,
    Diamonds,
    Clubs,
}

/// The position of a rank in the total order of ranks.
pub open spec fn spec_rank_value(r: Rank) -> int {
    match r {
        Rank::Two => 0,
        Rank::Three => 1,
        Rank::Four => 2,
        Rank::Five => 3,
        Rank::Six => 4,
        Rank::Seven => 5,
        Rank::Eight => 6,
        Rank::Nine => 7,
        Rank::Ten => 8,
        Rank::Jack => 9,
        Rank::Queen => 10,
        Rank::King => 11,
        Rank::Ace => 12,
        Rank::Joker => 13,
    }
}

/// The position of a rank in the total order of ranks, as executable code.
pub fn rank_value(r: Rank) -> (v: u8)
    ensures
        v as int == spec_rank_value(r),
{
    match r {
        Rank::Two => 0,
        Rank::Three => 1,
        Rank::Four => 2,
        Rank::Five => 3,
        Rank::Six => 4,
        Rank::Seven => 5,
        Rank::Eight => 6,
        Rank::Nine => 7,
        Rank::Ten => 8,
        Rank::Jack => 9,
        Rank::Queen => 10,
        Rank::King => 11,
        Rank::Ace => 12,
        Rank::Joker => 13,
    }
}

#[derive(Debug, Clone, Copy, PartialEq, Eq, Hash, Structural)]
pub struct Card {
    pub rank: Rank,
    pub suit: Suit,
}

/// Whether a card of rank `rank` may legally be placed on an effective
/// trash rank of `on_rank`. A Two resets the pile, so anything goes on it;
/// on a Seven only ranks up to Seven are legal; otherwise the placed rank
/// must be at least the target rank. A Three is never an effective rank
/// (the card below it counts instead), and a Ten or Joker burns the trash
/// and so never ends up as the effective top of a non-empty trash; querying
/// against those is a caller error and is excluded here.
pub open spec fn spec_can_be_placed_on(rank: Rank, on_rank: Rank) -> bool {
    if on_rank == Rank::Two {
        true
    } else if on_rank == Rank::Seven {
        spec_rank_value(rank) <= spec_rank_value(Rank::Seven)
    } else {
        spec_rank_value(rank) >= spec_rank_value(on_rank)
    }
}

impl Card {
    /// Can this card be placed on a card with the given rank?
    ///
    /// The target rank must be an effective trash rank: never a Three
    /// (the card below a Three is compared instead), and never a Ten or a
    /// Joker (those burn the trash and are never its effective top).
    pub fn can_be_placed_on(self, on_rank: Rank) -> (r: bool)
        requires
            on_rank != Rank::Three,
            on_rank != Rank::Ten,
            on_rank != Rank::Joker,
        ensures
            r == spec_can_be_placed_on(self.rank, on_rank),
    {
        match on_rank {
            Rank::Two => true,
            Rank::Seven => rank_value(self.rank) <= rank_value(Rank::Seven),
            _ => rank_value(self.rank) >= rank_value(on_rank),
        }
    }
}

/// How many jokers a full card set holds.
pub const JOKERS_AMOUNT: usize = 2;

/// How many suits there are.
pub const SUITS_AMOUNT: usize = 4;

/// How many non-joker ranks there are (Two up to Ace).
pub const NON_JOKER_RANKS_AMOUNT: usize = 13;

/// The number of cards in the catalog: every non-joker rank in every suit,
/// plus the jokers.
pub open spec fn catalog_size() -> int {
    NON_JOKER_RANKS_AMOUNT * SUITS_AMOUNT + JOKERS_AMOUNT
}

/// The rank at a given position of the rank order (inverse of
/// `spec_rank_value`).
pub open spec fn spec_rank_of(i: int) -> Rank {
    if i == 0 {
        Rank::Two
    } else if i == 1 {
        Rank::Three
    } else if i == 2 {
        Rank::Four
    } else if i == 3 {
        Rank::Five
    } else if i == 4 {
        Rank::Six
    } else if i == 5 {
        Rank::Seven
    } else if i == 6 {
        Rank::Eight
    } else if i == 7 {
        Rank::Nine
    } else if i == 8 {
        Rank::Ten
    } else if i == 9 {
        Rank::Jack
    } else if i == 10 {
        Rank::Queen
    } else if i == 11 {
        Rank::King
    } else if i == 12 {
        Rank::Ace
    } else {
        Rank::Joker
    }
}

/// The suit at a given position of the suit order.
pub open spec fn spec_suit_of(i: int) -> Suit {
    if i == 0 {
        Suit::Spades
    } else if i == 1 {
        Suit::Hearts
    } else if i == 2 {
        Suit::Diamonds
    } else {
        Suit::Clubs
    }
}

/// The card a given catalog identifier stands for. The catalog enumerates
/// the non-joker ranks in rank order, each in all four suits, and then the
/// jokers, which exist in only the first `JOKERS_AMOUNT` suit slots.
pub open spec fn spec_card_of(i: int) -> Card {
    if i < NON_JOKER_RANKS_AMOUNT * SUITS_AMOUNT {
        Card { rank: spec_rank_of(i / SUITS_AMOUNT as int), suit: spec_suit_of(i % SUITS_AMOUNT as int) }
    } else {
        Card { rank: Rank::Joker, suit: spec_suit_of(i - NON_JOKER_RANKS_AMOUNT * SUITS_AMOUNT) }
    }
}

/// The whole catalog, as a sequence indexed by raw card id.
pub open spec fn catalog_seq() -> Seq<Card> {
    Seq::new(catalog_size() as nat, |i: int| spec_card_of(i))
}

/// Whether a card id is an index into the catalog.
pub open spec fn valid_card_id(id: CardId) -> bool {
    0 <= id.spec_raw() < catalog_size()
}

/// Whether every card id of a sequence is an index into the catalog.
pub open spec fn valid_card_ids(s: Seq<CardId>) -> bool {
    forall|i: int| 0 <= i < s.len() ==> valid_card_id(#[trigger] s[i])
}

/// Every card id of the catalog, in catalog order, as a specification value.
pub open spec fn all_card_ids_seq() -> Seq<CardId> {
    Seq::new(catalog_size() as nat, |i: int| CardId(i as usize))
}

/// The rank of the card a given id stands for.
pub open spec fn spec_rank_of_id(id: CardId) -> Rank {
    spec_card_of(id.spec_raw()).rank
}

fn rank_from_value(v: usize) -> (r: Rank)
    requires
        0 <= v < NON_JOKER_RANKS_AMOUNT,
    ensures
        r == spec_rank_of(v as int),
{
    match v {
        0 => Rank::Two,
        1 => Rank::Three,
        2 => Rank::Four,
        3 => Rank::Five,
        4 => Rank::Six,
        5 => Rank::Seven,
        6 => Rank::Eight,
        7 => Rank::Nine,
        8 => Rank::Ten,
        9 => Rank::Jack,
        10 => Rank::Queen,
        11 => Rank::King,
        _ => Rank::Ace,
    }
}

fn suit_from_value(v: usize) -> (s: Suit)
    requires
        0 <= v < SUITS_AMOUNT,
    ensures
        s == spec_suit_of(v as int),
{
    match v {
        0 => Suit::Spades,
        1 => Suit::Hearts,
        2 => Suit::Diamonds,
        _ => Suit::Clubs,
    }
}

/// The card a catalog identifier stands for, computed from the identifier
/// alone.
pub fn card_from_id(id: CardId) -> (c: Card)
    requires
        valid_card_id(id),
    ensures
        c == spec_card_of(id.spec_raw()),
{
    let raw = id.0;
    if raw < NON_JOKER_RANKS_AMOUNT * SUITS_AMOUNT {
        Card { rank: rank_from_value(raw / SUITS_AMOUNT), suit: suit_from_value(raw % SUITS_AMOUNT) }
    } else {
        Card { rank: Rank::Joker, suit: suit_from_value(raw - NON_JOKER_RANKS_AMOUNT * SUITS_AMOUNT) }
    }
}

/// Every card id of the catalog, in catalog order.
pub fn all_card_ids() -> (r: Vec<CardId>)
    ensures
        r@ == all_card_ids_seq(),
{
    let total = NON_JOKER_RANKS_AMOUNT * SUITS_AMOUNT + JOKERS_AMOUNT;
    let mut ids: Vec<CardId> = Vec::new();
    let mut i: usize = 0;
    while i < total
        invariant
            i <= total,
            total == catalog_size(),
            ids@.len() == i,
            forall|j: int| 0 <= j < i ==> (#[trigger] ids@[j]) == CardId(j as usize),
        decreases total - i,
    {
        ids.push(CardId(i));
        i = i + 1;
    }
    proof {
        assert(ids@ =~= all_card_ids_seq());
    }
    ids
}

/// Copies a pile of card ids.
pub fn copy_ids(cards: &Vec<CardId>) -> (r: Vec<CardId>)
    ensures
        r@ == cards@,
{
    let mut r: Vec<CardId> = Vec::new();
    let mut i: usize = 0;
    while i < cards.len()
        invariant
            i <= cards@.len(),
            r@ == cards@.take(i as int),
        decreases cards@.len() - i,
    {
        r.push(cards[i]);
        proof {
            assert(r@ =~= cards@.take(i + 1));
        }
        i = i + 1;
    }
    proof {
        assert(cards@.take(cards@.len() as int) =~= cards@);
    }
    r
}

/// A cache of all cards by their id
pub struct CardsById {
    cards_by_id: Vec<Card>,
}

impl View for CardsById {
    type V = Seq<Card>;

    closed spec fn view(&self) -> Seq<Card> {
        self.cards_by_id@
    }
}

impl CardsById {
    /// Initializes a cache of all cards by their id.
    pub fn new() -> (r: Self)
        ensures
            r@ == catalog_seq(),
    {
        let total = NON_JOKER_RANKS_AMOUNT * SUITS_AMOUNT + JOKERS_AMOUNT;
        let mut cards_by_id: Vec<Card> = Vec::new();
        let mut i: usize = 0;
        while i < total
            invariant
                i <= total,
                total == catalog_size(),
                cards_by_id@.len() == i,
                forall|j: int| 0 <= j < i ==> (#[trigger] cards_by_id@[j]) == spec_card_of(j),
            decreases total - i,
        {
            cards_by_id.push(card_from_id(CardId(i)));
            i = i + 1;
        }
        proof {
            assert(cards_by_id@ =~= catalog_seq());
        }
        CardsById { cards_by_id }
    }

    /// The total amount of cards in a single deck
    pub fn cards_amount(&self) -> (n: usize)
        ensures
            n == self@.len(),
    {
        self.cards_by_id.len()
    }

    /// Returns a card given its id
    pub fn get_card(&self, card_id: CardId) -> (c: Card)
        requires
            card_id.spec_raw() < self@.len(),
        ensures
            c == self@[card_id.spec_raw()],
    {
        self.cards_by_id[card_id.0]
    }
}

} // verus!
