//! The per-room state machine: roster, phase (waiting, card selection,
//! active play), the current turn and its timer, and every player-facing
//! operation of a lobby.

use vstd::prelude::*;
use vstd::multiset::Multiset;

use crate::cards::CardId;
use crate::cards::all_card_ids_seq;
use crate::cards::copy_ids;
use crate::cards::valid_card_ids;
use crate::deck::CardsDeck;
use crate::deck::lemma_catalog_multiset_valid;
use crate::deck::spec_effective_trash_rank;
use crate::cards::Rank;
use crate::game_server::ClientId;
use crate::game_server::GameServerError;
use crate::lobby_player::LobbyPlayer;
use crate::messages::ClickedCardLocation;
use crate::messages::ServerMessage;
use crate::ordered_lobby_players::spec_next_after;
use crate::lobby_player::player_cards_multiset;
use crate::lobby_player::player_valid_ids;
use crate::ordered_lobby_players::OrderedLobbyPlayers;
use crate::ordered_lobby_players::roster_cards_multiset;
use crate::timer::TimerLog;

verus! {

/// The most players one lobby can hold.
pub const MAX_PLAYERS_IN_LOBBY: usize = 6;

/// How many cards each player's hand is dealt at game start.
pub const INITIAL_CARDS_IN_HAND_AMOUNT: usize = 6;

/// How many face-down cards each player is dealt at game start.
pub const THREE_DOWN_CARDS_AMOUNT: usize = 3;

/// How many face-up cards each player must end the selection phase with.
pub const THREE_UP_CARDS_AMOUNT: usize = 3;

/// How long one turn lasts before it times out, in seconds.
pub const TURN_DURATION_SECS: u64 = 20;

/// How long the selection phase lasts, in seconds.
pub const CHOOSE_TOP_3_DURATION_SECS: u64 = 20;

/// Identifier of one lobby, allocated by the game server state.
#[derive(Debug, Clone, Copy, PartialEq, Eq, Hash, Structural)]
pub struct LobbyId(pub usize);

impl LobbyId {
    /// Creates a LobbyId from a raw id. Only call this on valid lobby ids
    /// created by getting the next lobby id from the server's state.
    pub fn from_raw(raw: usize) -> (r: Self)
        ensures
            r.0 == raw,
    {
        Self(raw)
    }

    /// Returns the raw id as a usize
    pub fn raw(&self) -> (r: usize)
        ensures
            r == self.0,
    {
        self.0
    }
}

/// Represents a turn of a player in the game lobby: whose turn it is, and
/// the handle of the timer that will end it if the player does not act.
#[derive(Debug, Clone, Copy, PartialEq, Eq, Structural)]
pub struct Turn {
    pub player_id: ClientId,
    pub timer_handle: usize,
}

impl Turn {
    pub fn new(player_id: ClientId, timer_handle: usize) -> (r: Self)
        ensures
            r.player_id == player_id,
            r.timer_handle == timer_handle,
    {
        Self { player_id, timer_handle }
    }

    /// The id of the player which this turn belongs to.
    pub fn player_id(&self) -> (r: ClientId)
        ensures
            r == self.player_id,
    {
        self.player_id
    }

    /// The handle of this turn's timeout timer.
    pub fn timer_handle(&self) -> (r: usize)
        ensures
            r == self.timer_handle,
    {
        self.timer_handle
    }

    /// Whose turn it is, for specifications.
    pub open spec fn spec_player_id(self) -> ClientId {
        self.player_id
    }

    /// The timer handle, for specifications.
    pub open spec fn spec_timer_handle(self) -> int {
        self.timer_handle as int
    }
}

/// The state of a lobby whose players are choosing their three up cards:
/// the undealt remainder of the deck, and the selection-phase timer.
#[derive(Debug)]
pub struct Choosing3UpState {
    pub deck: CardsDeck,
    pub timer_handle: usize,
}

/// The state of a lobby in active play.
#[derive(Debug)]
pub struct InGameLobbyState {
    pub deck: CardsDeck,
    pub trash: CardsDeck,
    pub current_turn: Turn,
}

/// A state of a lobby.
#[derive(Debug)]
pub enum LobbyState {
    Waiting,
    Choosing3Up(Choosing3UpState),
    GameStarted(InGameLobbyState),
}

/// Whether a player holds no cards at all.
pub open spec fn player_no_cards(p: LobbyPlayer) -> bool {
    &&& p.cards_in_hand@.len() == 0
    &&& p.three_up_cards@.len() == 0
    &&& p.three_down_cards@.len() == 0
}

/// Whether no member of the roster holds any card.
pub open spec fn roster_no_cards(r: OrderedLobbyPlayers) -> bool {
    forall|i: int|
        0 <= i < r.spec_order().len() ==> player_no_cards(
            r.spec_players()[(#[trigger] r.spec_order()[i]).0],
        )
}

/// Whether every card id held by any roster member indexes the catalog.
pub open spec fn roster_valid_ids(r: OrderedLobbyPlayers) -> bool {
    forall|i: int|
        0 <= i < r.spec_order().len() ==> player_valid_ids(
            r.spec_players()[(#[trigger] r.spec_order()[i]).0],
        )
}

/// During the selection phase every member still holds the dealt counts:
/// hand and up-cards together hold the initial hand size (clicking only
/// moves cards between the two), and the down pile its fixed size.
pub open spec fn roster_choosing_counts(r: OrderedLobbyPlayers) -> bool {
    forall|i: int|
        0 <= i < r.spec_order().len() ==> {
            let p = r.spec_players()[(#[trigger] r.spec_order()[i]).0];
            &&& p.cards_in_hand@.len() + p.three_up_cards@.len() == INITIAL_CARDS_IN_HAND_AMOUNT
            &&& p.three_down_cards@.len() == THREE_DOWN_CARDS_AMOUNT
        }
}

/// Whether a card multiset holds each card at most once: no card is ever
/// in two places.
pub open spec fn cards_exclusive(m: Multiset<CardId>) -> bool {
    forall|e: CardId| #[trigger] m.count(e) <= 1
}

/// The catalog holds every card exactly once, so its multiset is
/// exclusive.
pub proof fn lemma_all_card_ids_exclusive()
    ensures
        cards_exclusive(all_card_ids_seq().to_multiset()),
{
    let all = all_card_ids_seq();
    assert(all.no_duplicates());
    all.lemma_multiset_has_no_duplicates();
    broadcast use vstd::seq_lib::group_to_multiset_ensures;

    assert forall|e: CardId| #[trigger] all.to_multiset().count(e) <= 1 by {
        if all.to_multiset().count(e) > 0 {
            assert(all.to_multiset().contains(e));
        }
    }
}

/// A player with no cards contributes nothing to the card multiset.
pub proof fn lemma_player_no_cards_multiset(p: LobbyPlayer)
    requires
        player_no_cards(p),
    ensures
        player_cards_multiset(p) == Multiset::<CardId>::empty(),
{
    broadcast use vstd::seq_lib::group_to_multiset_ensures, vstd::multiset::group_multiset_axioms;

    vstd::multiset::lemma_multiset_empty_len(p.cards_in_hand@.to_multiset());
    vstd::multiset::lemma_multiset_empty_len(p.three_up_cards@.to_multiset());
    vstd::multiset::lemma_multiset_empty_len(p.three_down_cards@.to_multiset());
    assert(player_cards_multiset(p) =~= Multiset::<CardId>::empty());
}

/// A roster none of whose members holds a card has the empty card
/// multiset.
pub proof fn lemma_roster_no_cards_empty(order: Seq<ClientId>, players: Map<usize, LobbyPlayer>)
    requires
        forall|i: int|
            0 <= i < order.len() ==> player_no_cards(players[(#[trigger] order[i]).0]),
    ensures
        roster_cards_multiset(order, players) == Multiset::<CardId>::empty(),
    decreases order.len(),
{
    broadcast use vstd::multiset::group_multiset_axioms;

    if order.len() > 0 {
        let rest = order.drop_first();
        assert forall|i: int| 0 <= i < rest.len() implies player_no_cards(
            players[(#[trigger] rest[i]).0],
        ) by {
            assert(rest[i] == order[i + 1]);
        }
        lemma_roster_no_cards_empty(rest, players);
        lemma_player_no_cards_multiset(players[order[0].0]);
        assert(roster_cards_multiset(order, players) =~= Multiset::<CardId>::empty());
    }
}

/// The result of removing a player from a lobby.
#[derive(Debug, Clone, Copy, PartialEq, Eq, Structural)]
pub enum RemovePlayerFromLobbyResult {
    Removed,
    NewOwner(ClientId),
    LobbyNowEmpty,
    PlayerWasntInLobby,
}

/// A game lobby
#[derive(Debug)]
pub struct Lobby {
    id: LobbyId,
    name: String,
    state: LobbyState,
    player_list: OrderedLobbyPlayers,
    owner_id: ClientId,
    timers: TimerLog,
}

impl Lobby {
    pub closed spec fn spec_id(self) -> LobbyId {
        self.id
    }

    pub closed spec fn spec_name(self) -> Seq<char> {
        self.name@
    }

    pub closed spec fn spec_owner(self) -> ClientId {
        self.owner_id
    }

    pub closed spec fn spec_roster(self) -> OrderedLobbyPlayers {
        self.player_list
    }

    pub closed spec fn spec_state(self) -> LobbyState {
        self.state
    }

    pub closed spec fn spec_timers(self) -> TimerLog {
        self.timers
    }

    /// Every card of this lobby's game: the deck, the trash, and every
    /// member's piles. Meaningful only outside the Waiting phase.
    pub open spec fn spec_all_cards(self) -> Multiset<CardId> {
        match self.spec_state() {
            LobbyState::Waiting => Multiset::empty(),
            LobbyState::Choosing3Up(c) => c.deck@.to_multiset().add(
                roster_cards_multiset(
                    self.spec_roster().spec_order(),
                    self.spec_roster().spec_players(),
                ),
            ),
            LobbyState::GameStarted(g) => g.deck@.to_multiset().add(g.trash@.to_multiset()).add(
                roster_cards_multiset(
                    self.spec_roster().spec_order(),
                    self.spec_roster().spec_players(),
                ),
            ),
        }
    }

    /// The timer part of the lobby invariant: a waiting lobby has no
    /// outstanding timer; in every other phase exactly the phase's own
    /// timer is outstanding, so at any instant at most one timer is live.
    pub open spec fn wf_timers(self) -> bool {
        match self.spec_state() {
            LobbyState::Waiting => self.spec_timers().none_pending(),
            LobbyState::Choosing3Up(c) => self.spec_timers().only_pending(c.timer_handle as int),
            LobbyState::GameStarted(g) => self.spec_timers().only_pending(
                g.current_turn.spec_timer_handle(),
            ),
        }
    }

    /// The card part of the lobby invariant: before a game starts nobody
    /// holds cards; once cards are dealt, the deck, the trash and the
    /// players' piles together hold every card of the catalog exactly once.
    pub open spec fn wf_cards(self) -> bool {
        match self.spec_state() {
            LobbyState::Waiting => roster_no_cards(self.spec_roster()),
            LobbyState::Choosing3Up(c) => {
                &&& valid_card_ids(c.deck@)
                &&& roster_valid_ids(self.spec_roster())
                &&& roster_choosing_counts(self.spec_roster())
                &&& cards_exclusive(self.spec_all_cards())
            },
            LobbyState::GameStarted(g) => {
                &&& valid_card_ids(g.deck@)
                &&& valid_card_ids(g.trash@)
                &&& roster_valid_ids(self.spec_roster())
                &&& cards_exclusive(self.spec_all_cards())
                &&& self.spec_roster().spec_order().len() > 0 ==> self.spec_roster().spec_order()
                    .contains(g.current_turn.spec_player_id())
                &&& spec_effective_trash_rank(g.trash@) != Rank::Ten
                &&& spec_effective_trash_rank(g.trash@) != Rank::Joker
            },
        }
    }

    /// The roster part of the lobby invariant: consistent, and no larger
    /// than the cap.
    pub open spec fn wf_roster(self) -> bool {
        &&& self.spec_roster().wf()
        &&& self.spec_roster().spec_order().len() <= MAX_PLAYERS_IN_LOBBY
    }

    /// The owner part of the lobby invariant: the owner is a member while
    /// anyone is.
    pub open spec fn wf_owner(self) -> bool {
        self.spec_roster().spec_order().len() > 0 ==> self.spec_roster().spec_contains(
            self.spec_owner(),
        )
    }

    /// Everything of the lobby invariant except the timer discipline.
    pub open spec fn wf_core(self) -> bool {
        &&& self.wf_roster()
        &&& self.wf_owner()
        &&& self.wf_cards()
    }

    /// Everything of the lobby invariant except the owner: what remains
    /// true in the middle of removing the owner from the lobby.
    pub open spec fn wf_sans_owner(self) -> bool {
        &&& self.wf_roster()
        &&& self.wf_timers()
        &&& self.wf_cards()
    }

    /// The lobby invariant: a consistent roster no larger than the cap, an
    /// owner who is a member while anyone is, at most one outstanding
    /// timer, and no card in two places.
    pub open spec fn wf(self) -> bool {
        &&& self.wf_core()
        &&& self.wf_timers()
    }

    /// Creates a new lobby with the given name and owner. The owner is the
    /// sole initial member.
    pub fn new(id: LobbyId, name: String, owner_id: ClientId) -> (r: Self)
        ensures
            r.wf(),
            r.spec_id() == id,
            r.spec_name() == name@,
            r.spec_owner() == owner_id,
            r.spec_state() is Waiting,
            r.spec_roster().spec_order() == seq![owner_id],
            r.spec_roster().spec_contains(owner_id),
    {
        let mut players = OrderedLobbyPlayers::new();
        players.insert(owner_id, LobbyPlayer::without_any_cards());
        let r = Self {
            state: LobbyState::Waiting,
            owner_id,
            id,
            name,
            player_list: players,
            timers: TimerLog::new(),
        };
        proof {
            assert(r.spec_roster().spec_order() =~= seq![owner_id]);
        }
        r
    }

    /// The id of the lobby
    pub fn id(&self) -> (r: LobbyId)
        ensures
            r == self.spec_id(),
    {
        self.id
    }

    /// The name of the lobby.
    pub fn name(&self) -> (r: &String)
        ensures
            r@ == self.spec_name(),
    {
        &self.name
    }

    /// The amount of players in the lobby.
    pub fn players_amount(&self) -> (n: usize)
        ensures
            n == self.spec_roster().spec_order().len(),
    {
        self.player_list.len()
    }

    /// Is the lobby empty?
    pub fn is_empty(&self) -> (r: bool)
        ensures
            r == (self.spec_roster().spec_order().len() == 0),
    {
        self.player_list.is_empty()
    }

    /// The current state of the lobby.
    pub fn state(&self) -> (r: &LobbyState)
        ensures
            r == self.spec_state(),
    {
        &self.state
    }

    /// Is the lobby in a waiting state?
    pub fn is_waiting(&self) -> (r: bool)
        ensures
            r == (self.spec_state() is Waiting),
    {
        matches!(&self.state, LobbyState::Waiting)
    }

    /// The id of the owner.
    pub fn owner_id(&self) -> (r: ClientId)
        ensures
            r == self.spec_owner(),
    {
        self.owner_id
    }

    /// The ids of the players in the lobby, in turn order.
    pub fn player_ids(&self) -> (r: Vec<ClientId>)
        ensures
            r@ == self.spec_roster().spec_order(),
    {
        self.player_list.player_ids()
    }

    /// Returns the lobby player with the given id.
    pub fn get_player(&self, player_id: ClientId) -> (r: Option<&LobbyPlayer>)
        ensures
            self.spec_roster().spec_contains(player_id) ==> (r matches Some(p) && *p
                == self.spec_roster().spec_players()[player_id.0]),
            !self.spec_roster().spec_contains(player_id) ==> r is None,
    {
        self.player_list.get_player(player_id)
    }

    /// The handle of the outstanding timer of the current phase, if any:
    /// the selection timer or the current turn's timer.
    pub fn pending_timer(&self) -> (r: Option<usize>)
        ensures
            match self.spec_state() {
                LobbyState::Waiting => r is None,
                LobbyState::Choosing3Up(c) => r == Some(c.timer_handle),
                LobbyState::GameStarted(g) => r == Some(g.current_turn.timer_handle),
            },
    {
        match &self.state {
            LobbyState::Waiting => None,
            LobbyState::Choosing3Up(c) => Some(c.timer_handle),
            LobbyState::GameStarted(g) => Some(g.current_turn.timer_handle),
        }
    }

    /// Whose turn it currently is, if the game is running.
    pub fn current_turn_player_id(&self) -> (r: Option<ClientId>)
        ensures
            match self.spec_state() {
                LobbyState::GameStarted(g) => r == Some(g.current_turn.spec_player_id()),
                _ => r is None,
            },
    {
        match &self.state {
            LobbyState::GameStarted(g) => Some(g.current_turn.player_id),
            _ => None,
        }
    }

    /// Adds a player to the lobby without performing any checks.
    /// The checks are done in `GameServerState::join_lobby`: the lobby must
    /// be waiting, below the cap, and must not already hold the player.
    ///
    /// The player starts with no cards at all, since in the waiting state
    /// no players have cards.
    pub fn add_player(&mut self, player_id: ClientId)
        requires
            old(self).wf(),
            old(self).spec_state() is Waiting,
            !old(self).spec_roster().spec_contains(player_id),
            old(self).spec_roster().spec_order().len() < MAX_PLAYERS_IN_LOBBY,
            old(self).spec_roster().spec_order().len() > 0,
        ensures
            final(self).wf(),
            final(self).spec_state() is Waiting,
            final(self).spec_id() == old(self).spec_id(),
            final(self).spec_name() == old(self).spec_name(),
            final(self).spec_owner() == old(self).spec_owner(),
            final(self).spec_roster().spec_order() == old(self).spec_roster().spec_order().push(
                player_id,
            ),
            final(self).spec_roster().spec_contains(player_id),
    {
        let new_player = LobbyPlayer::without_any_cards();
        proof {
            assert(player_no_cards(new_player));
        }
        self.player_list.insert(player_id, new_player);
        proof {
            let r = self.spec_roster();
            let oldr = old(self).spec_roster();
            assert(r.spec_order() == oldr.spec_order().push(player_id));
            assert forall|i: int| 0 <= i < r.spec_order().len() implies player_no_cards(
                r.spec_players()[(#[trigger] r.spec_order()[i]).0],
            ) by {
                if i < r.spec_order().len() - 1 {
                    assert(oldr.spec_order()[i] == r.spec_order()[i]);
                    assert(oldr.spec_players().contains_key(r.spec_order()[i].0));
                    assert(r.spec_order()[i].0 != player_id.0);
                    assert(r.spec_players()[r.spec_order()[i].0] == oldr.spec_players()[r.spec_order()[i].0]);
                } else {
                    assert(r.spec_order()[i] == player_id);
                    assert(r.spec_players()[player_id.0] == new_player);
                }
            }
        }
    }

    /// Starts the game in this lobby without performing any checks.
    /// The checks are done in `GameServerState::start_game`.
    ///
    /// Deals each player the initial hand and the three face-down cards
    /// from a fresh shuffled deck, then enters the selection phase with
    /// the remaining deck and starts the selection timer.
    pub fn start_game(&mut self)
        requires
            old(self).wf(),
            old(self).spec_state() is Waiting,
            old(self).spec_roster().spec_order().len() > 0,
        ensures
            final(self).wf(),
            final(self).spec_state() is Choosing3Up,
            final(self).spec_id() == old(self).spec_id(),
            final(self).spec_name() == old(self).spec_name(),
            final(self).spec_owner() == old(self).spec_owner(),
            final(self).spec_roster().spec_order() == old(self).spec_roster().spec_order(),
            final(self).spec_all_cards() == all_card_ids_seq().to_multiset(),
            forall|i: int|
                0 <= i < final(self).spec_roster().spec_order().len() ==> ({
                    let p = final(self).spec_roster().spec_players()[(#[trigger] final(self).spec_roster().spec_order()[i]).0];
                    &&& p.cards_in_hand@.len() == INITIAL_CARDS_IN_HAND_AMOUNT
                    &&& p.three_up_cards@.len() == 0
                    &&& p.three_down_cards@.len() == THREE_DOWN_CARDS_AMOUNT
                }),
    {
        broadcast use vstd::seq_lib::group_to_multiset_ensures, vstd::multiset::group_multiset_axioms;

        let ghost all = all_card_ids_seq().to_multiset();
        let mut deck = CardsDeck::shuffled();
        proof {
            lemma_catalog_multiset_valid(deck@);
            lemma_roster_no_cards_empty(
                self.spec_roster().spec_order(),
                self.spec_roster().spec_players(),
            );
            assert(deck@.to_multiset().add(
                roster_cards_multiset(
                    self.spec_roster().spec_order(),
                    self.spec_roster().spec_players(),
                ),
            ) =~= all);
        }
        let ids = self.player_list.player_ids();
        let n = ids.len();
        let mut i: usize = 0;
        while i < n
            invariant
                n == ids@.len(),
                n <= MAX_PLAYERS_IN_LOBBY,
                i <= n,
                self.spec_roster().wf(),
                self.spec_roster().spec_order() == ids@,
                self.spec_id() == old(self).spec_id(),
                self.spec_name() == old(self).spec_name(),
                self.spec_owner() == old(self).spec_owner(),
                self.spec_state() == old(self).spec_state(),
                self.spec_state() is Waiting,
                self.spec_timers() == old(self).spec_timers(),
                deck@.len() == all_card_ids_seq().len() - i * (
                INITIAL_CARDS_IN_HAND_AMOUNT + THREE_DOWN_CARDS_AMOUNT),
                valid_card_ids(deck@),
                forall|j: int|
                    0 <= j < i ==> {
                        let p = self.spec_roster().spec_players()[(#[trigger] ids@[j]).0];
                        &&& p.cards_in_hand@.len() == INITIAL_CARDS_IN_HAND_AMOUNT
                        &&& p.three_up_cards@.len() == 0
                        &&& p.three_down_cards@.len() == THREE_DOWN_CARDS_AMOUNT
                        &&& player_valid_ids(p)
                    },
                forall|j: int|
                    i <= j < n ==> player_no_cards(
                        self.spec_roster().spec_players()[(#[trigger] ids@[j]).0],
                    ),
                deck@.to_multiset().add(
                    roster_cards_multiset(ids@, self.spec_roster().spec_players()),
                ) == all,
            decreases n - i,
        {
            broadcast use vstd::seq_lib::group_to_multiset_ensures, vstd::multiset::group_multiset_axioms;

            let id = ids[i];
            proof {
                assert(self.spec_roster().spec_order()[i as int] == id);
                assert(self.spec_roster().spec_contains(id));
            }
            let ghost players0 = self.spec_roster().spec_players();
            let ghost old_p = players0[id.0];
            let ghost d0 = deck@;
            proof {
                assert(all_card_ids_seq().len() == 54);
                assert(i <= 5);
                assert(i * (INITIAL_CARDS_IN_HAND_AMOUNT + THREE_DOWN_CARDS_AMOUNT) <= 45)
                    by (nonlinear_arith)
                    requires i <= 5;
                assert(deck@.len() >= 9);
            }
            let hand = match deck.take_cards_from_top(INITIAL_CARDS_IN_HAND_AMOUNT) {
                Some(cards) => cards,
                None => vstd::pervasive::unreached(),
            };
            let ghost d1 = deck@;
            let down = match deck.take_cards_from_top(THREE_DOWN_CARDS_AMOUNT) {
                Some(cards) => cards,
                None => vstd::pervasive::unreached(),
            };
            let new_player = LobbyPlayer {
                cards_in_hand: hand,
                three_up_cards: Vec::new(),
                three_down_cards: down,
            };
            proof {
                assert(d0 =~= d1 + hand@);
                assert(d1 =~= deck@ + down@);
                vstd::seq_lib::lemma_multiset_commutative(d1, hand@);
                vstd::seq_lib::lemma_multiset_commutative(deck@, down@);
                lemma_player_no_cards_multiset(old_p);
                vstd::multiset::lemma_multiset_empty_len(
                    new_player.three_up_cards@.to_multiset(),
                );
                crate::ordered_lobby_players::lemma_roster_cards_update(
                    ids@,
                    players0,
                    id,
                    new_player,
                );
            }
            self.player_list.replace_player(id, new_player);
            proof {
                let players1 = self.spec_roster().spec_players();
                assert(players1 == players0.insert(id.0, new_player));
                assert forall|e: CardId|
                    deck@.to_multiset().add(roster_cards_multiset(ids@, players1)).count(e)
                        == all.count(e) by {
                    assert(roster_cards_multiset(ids@, players1).add(
                        player_cards_multiset(old_p),
                    ).count(e) == roster_cards_multiset(ids@, players0).add(
                        player_cards_multiset(new_player),
                    ).count(e));
                    assert(d0.to_multiset().count(e) == deck@.to_multiset().count(e) + hand@
                        .to_multiset().count(e) + down@.to_multiset().count(e));
                    assert(player_cards_multiset(new_player).count(e) == hand@.to_multiset().count(
                        e,
                    ) + down@.to_multiset().count(e));
                    assert(d0.to_multiset().add(roster_cards_multiset(ids@, players0)).count(e)
                        == all.count(e));
                }
                assert(deck@.to_multiset().add(roster_cards_multiset(ids@, players1)) =~= all);
                assert forall|j: int| 0 <= j < i + 1 implies {
                    let p = self.spec_roster().spec_players()[(#[trigger] ids@[j]).0];
                    &&& p.cards_in_hand@.len() == INITIAL_CARDS_IN_HAND_AMOUNT
                    &&& p.three_up_cards@.len() == 0
                    &&& p.three_down_cards@.len() == THREE_DOWN_CARDS_AMOUNT
                    &&& player_valid_ids(p)
                } by {
                    if j < i {
                        assert(ids@[j] != ids@[i as int]);
                        assert(ids@[j].0 != id.0);
                        assert(players1[ids@[j].0] == players0[ids@[j].0]);
                    } else {
                        assert(players1[id.0] == new_player);
                        assert forall|k: int| 0 <= k < hand@.len() implies crate::cards::valid_card_id(
                            #[trigger] hand@[k],
                        ) by {
                            assert(hand@[k] == d0[d0.len() - INITIAL_CARDS_IN_HAND_AMOUNT + k]);
                        }
                        assert forall|k: int| 0 <= k < down@.len() implies crate::cards::valid_card_id(
                            #[trigger] down@[k],
                        ) by {
                            assert(down@[k] == d1[d1.len() - THREE_DOWN_CARDS_AMOUNT + k]);
                        }
                    }
                }
                assert forall|j: int| i + 1 <= j < n implies player_no_cards(
                    self.spec_roster().spec_players()[(#[trigger] ids@[j]).0],
                ) by {
                    assert(ids@[j] != ids@[i as int]);
                    assert(players1[ids@[j].0] == players0[ids@[j].0]);
                }
                assert((i + 1) * (INITIAL_CARDS_IN_HAND_AMOUNT + THREE_DOWN_CARDS_AMOUNT) == i * (
                INITIAL_CARDS_IN_HAND_AMOUNT + THREE_DOWN_CARDS_AMOUNT) + (
                INITIAL_CARDS_IN_HAND_AMOUNT + THREE_DOWN_CARDS_AMOUNT)) by (nonlinear_arith);
            }
            i = i + 1;
        }
        let timer_handle = self.timers.create();
        self.state = LobbyState::Choosing3Up(Choosing3UpState { deck, timer_handle });
        proof {
            assert(final(self).spec_timers().only_pending(timer_handle as int));
            assert(final(self).spec_all_cards() == all);
            lemma_all_card_ids_exclusive();
        }
    }

    /// Cancels the current turn's timer, seats the next player in turn
    /// order, arms a fresh timer for them, and announces the new turn.
    /// This is the single choke point all turn transitions pass through,
    /// so at most one turn timer is ever outstanding.
    fn advance_turn(&mut self) -> (evs: Vec<ServerMessage>)
        requires
            old(self).wf_core(),
            old(self).spec_roster().spec_order().len() > 0,
            old(self).spec_state() matches LobbyState::GameStarted(g0) && ({
                &&& old(self).spec_timers().at_most_pending(g0.current_turn.spec_timer_handle())
                &&& g0.current_turn.spec_timer_handle() < old(self).spec_timers()@.len()
            }),
        ensures
            final(self).wf(),
            final(self).spec_id() == old(self).spec_id(),
            final(self).spec_name() == old(self).spec_name(),
            final(self).spec_owner() == old(self).spec_owner(),
            final(self).spec_roster() == old(self).spec_roster(),
            final(self).spec_all_cards() == old(self).spec_all_cards(),
            old(self).spec_state() matches LobbyState::GameStarted(g0) ==> ({
                let next = spec_next_after(
                    old(self).spec_roster().spec_order(),
                    g0.current_turn.spec_player_id(),
                );
                &&& (final(self).spec_state() matches LobbyState::GameStarted(g1) && ({
                    &&& g1.deck@ == g0.deck@
                    &&& g1.trash@ == g0.trash@
                    &&& g1.current_turn.spec_player_id() == next
                }))
                &&& evs@ == seq![ServerMessage::Turn(next)]
            }),
    {
        let (cur, old_handle) = match &self.state {
            LobbyState::GameStarted(g) => (g.current_turn.player_id(), g.current_turn.timer_handle()),
            _ => vstd::pervasive::unreached(),
        };
        let next = self.player_list.find_next_turn_player_after(cur);
        let new_handle = self.timers.create();
        self.timers.cancel(old_handle);
        match &mut self.state {
            LobbyState::GameStarted(g) => {
                g.current_turn = Turn::new(next, new_handle);
            },
            _ => {},
        }
        let mut evs: Vec<ServerMessage> = Vec::new();
        evs.push(ServerMessage::Turn(next));
        proof {
            assert(old_handle != new_handle);
            assert(self.spec_timers().only_pending(new_handle as int));
            assert(evs@ =~= seq![ServerMessage::Turn(next)]);
            assert(self.spec_all_cards() == old(self).spec_all_cards());
        }
        evs
    }

    /// The player has finished playing his turn, move on to the next turn.
    /// Outside active play, or in a lobby already emptied, nothing happens.
    pub fn turn_finished(&mut self) -> (evs: Vec<ServerMessage>)
        requires
            old(self).wf(),
        ensures
            final(self).wf(),
            final(self).spec_id() == old(self).spec_id(),
            final(self).spec_name() == old(self).spec_name(),
            final(self).spec_owner() == old(self).spec_owner(),
            final(self).spec_roster() == old(self).spec_roster(),
            final(self).spec_all_cards() == old(self).spec_all_cards(),
            !(old(self).spec_state() is GameStarted) || old(self).spec_roster().spec_order().len()
                == 0 ==> *final(self) == *old(self) && evs@.len() == 0,
            old(self).spec_state() matches LobbyState::GameStarted(g0) ==> ({
                let next = spec_next_after(
                    old(self).spec_roster().spec_order(),
                    g0.current_turn.spec_player_id(),
                );
                old(self).spec_roster().spec_order().len() > 0 ==> ({
                    &&& (final(self).spec_state() matches LobbyState::GameStarted(g1) && ({
                        &&& g1.deck@ == g0.deck@
                        &&& g1.trash@ == g0.trash@
                        &&& g1.current_turn.spec_player_id() == next
                    }))
                    &&& evs@ == seq![ServerMessage::Turn(next)]
                })
            }),
    {
        let in_game = matches!(&self.state, LobbyState::GameStarted(_));
        if in_game && !self.player_list.is_empty() {
            self.advance_turn()
        } else {
            Vec::new()
        }
    }

    /// The current turn's timer has elapsed: resolves the race against
    /// cancellation, and if this timer is still the live one, gives the
    /// current player the whole trash as the penalty for inaction,
    /// announces it, and advances the turn. A stale handle (the turn
    /// already ended, or the phase changed) does nothing, so a timeout
    /// fires at most once per turn.
    pub fn turn_timeout(&mut self, timer_handle: usize) -> (evs: Vec<ServerMessage>)
        requires
            old(self).wf(),
        ensures
            final(self).wf(),
            final(self).spec_id() == old(self).spec_id(),
            final(self).spec_name() == old(self).spec_name(),
            final(self).spec_owner() == old(self).spec_owner(),
            final(self).spec_roster().spec_order() == old(self).spec_roster().spec_order(),
            final(self).spec_all_cards() == old(self).spec_all_cards(),
            !(old(self).spec_state() is GameStarted) ==> *final(self) == *old(self) && evs@.len()
                == 0,
            old(self).spec_state() matches LobbyState::GameStarted(g0) ==> ({
                let cur = g0.current_turn.spec_player_id();
                let next = spec_next_after(old(self).spec_roster().spec_order(), cur);
                let oldp = old(self).spec_roster().spec_players()[cur.0];
                let newp = final(self).spec_roster().spec_players()[cur.0];
                &&& (g0.current_turn.spec_timer_handle() != timer_handle || old(
                    self,
                ).spec_roster().spec_order().len() == 0) ==> (*final(self) == *old(self)
                    && evs@.len() == 0)
                &&& (g0.current_turn.spec_timer_handle() == timer_handle && old(
                    self,
                ).spec_roster().spec_order().len() > 0) ==> ({
                    &&& (final(self).spec_state() matches LobbyState::GameStarted(g1) && ({
                        &&& g1.deck@ == g0.deck@
                        &&& g1.trash@.len() == 0
                        &&& g1.current_turn.spec_player_id() == next
                    }))
                    &&& newp.cards_in_hand@ == oldp.cards_in_hand@ + g0.trash@
                    &&& newp.three_up_cards == oldp.three_up_cards
                    &&& newp.three_down_cards == oldp.three_down_cards
                    &&& evs@ == seq![ServerMessage::GiveTrash(cur), ServerMessage::Turn(next)]
                })
            }),
    {
        broadcast use vstd::seq_lib::group_to_multiset_ensures, vstd::multiset::group_multiset_axioms;

        let relevant = match &self.state {
            LobbyState::GameStarted(g) => g.current_turn.timer_handle() == timer_handle,
            _ => false,
        };
        if !relevant || self.player_list.is_empty() {
            return Vec::new();
        }
        let fired = self.timers.fire(timer_handle);
        let cur = match &self.state {
            LobbyState::GameStarted(g) => g.current_turn.player_id(),
            _ => vstd::pervasive::unreached(),
        };
        let ghost players0 = self.spec_roster().spec_players();
        let ghost trash0 = match old(self).spec_state() {
            LobbyState::GameStarted(g) => g.trash@,
            _ => Seq::empty(),
        };
        let trash_cards = match &mut self.state {
            LobbyState::GameStarted(g) => g.trash.take_all(),
            _ => vstd::pervasive::unreached(),
        };
        proof {
            assert(self.spec_roster().spec_order().contains(cur));
            assert(self.spec_roster().spec_contains(cur));
        }
        self.player_list.give_cards_to_player(cur, trash_cards);
        proof {
            let order = self.spec_roster().spec_order();
            let players1 = self.spec_roster().spec_players();
            let oldp = players0[cur.0];
            let newp = players1[cur.0];
            assert(players1 == players0.insert(cur.0, newp));
            crate::ordered_lobby_players::lemma_roster_cards_update(order, players0, cur, newp);
            assert(newp.cards_in_hand@ == oldp.cards_in_hand@ + trash0);
            vstd::seq_lib::lemma_multiset_commutative(oldp.cards_in_hand@, trash0);
            let empty_trash = match self.spec_state() {
                LobbyState::GameStarted(g) => g.trash@,
                _ => Seq::empty(),
            };
            assert(empty_trash.len() == 0);
            vstd::multiset::lemma_multiset_empty_len(empty_trash.to_multiset());
            assert forall|e: CardId|
                self.spec_all_cards().count(e) == old(self).spec_all_cards().count(e) by {
                assert(roster_cards_multiset(order, players1).add(
                    player_cards_multiset(oldp),
                ).count(e) == roster_cards_multiset(order, players0).add(
                    player_cards_multiset(newp),
                ).count(e));
                assert(newp.cards_in_hand@.to_multiset().count(e) == oldp.cards_in_hand@
                    .to_multiset().count(e) + trash0.to_multiset().count(e));
                assert(empty_trash.to_multiset().count(e) == 0);
            }
            assert(self.spec_all_cards() =~= old(self).spec_all_cards());
            assert(spec_effective_trash_rank(empty_trash) == Rank::Two);
            assert forall|i: int| 0 <= i < order.len() implies player_valid_ids(
                players1[(#[trigger] order[i]).0],
            ) by {
                if order[i].0 == cur.0 {
                    assert(valid_card_ids(trash0));
                    assert(player_valid_ids(oldp));
                    assert forall|k: int| 0 <= k < newp.cards_in_hand@.len() implies
                        crate::cards::valid_card_id(#[trigger] newp.cards_in_hand@[k]) by {
                        if k < oldp.cards_in_hand@.len() {
                            assert(newp.cards_in_hand@[k] == oldp.cards_in_hand@[k]);
                        } else {
                            assert(newp.cards_in_hand@[k] == trash0[k - oldp.cards_in_hand@.len()]);
                        }
                    }
                } else {
                    assert(players1[order[i].0] == players0[order[i].0]);
                }
            }
        }
        let mut evs: Vec<ServerMessage> = Vec::new();
        evs.push(ServerMessage::GiveTrash(cur));
        let mut advance_evs = self.advance_turn();
        evs.append(&mut advance_evs);
        proof {
            assert(evs@ =~= seq![
                ServerMessage::GiveTrash(cur),
                ServerMessage::Turn(
                    spec_next_after(old(self).spec_roster().spec_order(), cur),
                ),
            ]);
        }
        evs
    }

    /// Handles a card click from one of the clients.
    ///
    /// While the game is waiting the click is refused. During the selection
    /// phase a click on a hand card moves it to the player's up-cards and a
    /// click on an up-card moves it back, each announced to the lobby; any
    /// other location is ignored. In active play only the current-turn
    /// player may click, and only the trash: the claim succeeds only if no
    /// card of theirs could legally be played, takes the whole trash into
    /// their hand, and passes the turn on. Playing a card onto the trash is
    /// not part of this core, so in active play callers may only pass the
    /// trash location.
    pub fn click_card(&mut self, client_id: ClientId, clicked_card_location: ClickedCardLocation)
        -> (r: Result<Vec<ServerMessage>, GameServerError>)
        requires
            old(self).wf(),
            old(self).spec_state() is GameStarted ==> clicked_card_location is Trash,
        ensures
            final(self).wf(),
            final(self).spec_id() == old(self).spec_id(),
            final(self).spec_name() == old(self).spec_name(),
            final(self).spec_owner() == old(self).spec_owner(),
            final(self).spec_roster().spec_order() == old(self).spec_roster().spec_order(),
            final(self).spec_all_cards() == old(self).spec_all_cards(),
            r is Err ==> *final(self) == *old(self),
            old(self).spec_state() is Waiting ==> r == Err::<Vec<ServerMessage>, GameServerError>(
                GameServerError::GameHasntStartedYet,
            ),
            old(self).spec_state() is Choosing3Up ==> ({
                let oldp = old(self).spec_roster().spec_players()[client_id.0];
                &&& !old(self).spec_roster().spec_contains(client_id) ==> r == Err::<
                    Vec<ServerMessage>,
                    GameServerError,
                >(GameServerError::NotInALobby)
                &&& old(self).spec_roster().spec_contains(client_id) ==> match clicked_card_location {
                    ClickedCardLocation::FromCardsInHand { card_index } => {
                        &&& card_index >= oldp.cards_in_hand@.len() ==> r == Err::<
                            Vec<ServerMessage>,
                            GameServerError,
                        >(GameServerError::NoSuchCard)
                        &&& card_index < oldp.cards_in_hand@.len() ==> (r matches Ok(evs) && ({
                            let newp = final(self).spec_roster().spec_players()[client_id.0];
                            &&& newp.cards_in_hand@ == oldp.cards_in_hand@.update(
                                card_index as int,
                                oldp.cards_in_hand@.last(),
                            ).drop_last()
                            &&& newp.three_up_cards@ == oldp.three_up_cards@.push(
                                oldp.cards_in_hand@[card_index as int],
                            )
                            &&& newp.three_down_cards == oldp.three_down_cards
                            &&& evs@ == seq![
                                ServerMessage::MovePlayerCardFromHandToThreeUp {
                                    hand_card_index: card_index,
                                    player_id: client_id,
                                },
                            ]
                        }))
                    },
                    ClickedCardLocation::FromThreeUpCards { card_index } => {
                        &&& card_index >= oldp.three_up_cards@.len() ==> r == Err::<
                            Vec<ServerMessage>,
                            GameServerError,
                        >(GameServerError::NoSuchCard)
                        &&& card_index < oldp.three_up_cards@.len() ==> (r matches Ok(evs) && ({
                            let newp = final(self).spec_roster().spec_players()[client_id.0];
                            &&& newp.three_up_cards@ == oldp.three_up_cards@.update(
                                card_index as int,
                                oldp.three_up_cards@.last(),
                            ).drop_last()
                            &&& newp.cards_in_hand@ == oldp.cards_in_hand@.push(
                                oldp.three_up_cards@[card_index as int],
                            )
                            &&& newp.three_down_cards == oldp.three_down_cards
                            &&& evs@ == seq![
                                ServerMessage::MovePlayerCardFromThreeUpToHand {
                                    up_three_card_index: card_index,
                                    player_id: client_id,
                                },
                            ]
                        }))
                    },
                    _ => r matches Ok(evs) && evs@.len() == 0 && *final(self) == *old(self),
                }
            }),
            old(self).spec_state() matches LobbyState::GameStarted(g0) ==> ({
                let cur = g0.current_turn.spec_player_id();
                let eff = spec_effective_trash_rank(g0.trash@);
                let oldp = old(self).spec_roster().spec_players()[cur.0];
                let newp = final(self).spec_roster().spec_players()[cur.0];
                let next = spec_next_after(old(self).spec_roster().spec_order(), cur);
                &&& client_id != cur ==> r == Err::<Vec<ServerMessage>, GameServerError>(
                    GameServerError::NotYourTurn,
                )
                &&& (client_id == cur && old(self).spec_roster().spec_order().len() == 0) ==> r
                    == Err::<Vec<ServerMessage>, GameServerError>(GameServerError::NotInALobby)
                &&& (client_id == cur && old(self).spec_roster().spec_order().len() > 0) ==> ({
                    &&& crate::lobby_player::spec_placeable_cards(oldp, eff).len() > 0 ==> r
                        == Err::<Vec<ServerMessage>, GameServerError>(
                        GameServerError::CantTakeTrashBecauseSomeCardsCanBePlayed,
                    )
                    &&& crate::lobby_player::spec_placeable_cards(oldp, eff).len() == 0 ==> (r
                        matches Ok(evs) && ({
                        &&& (final(self).spec_state() matches LobbyState::GameStarted(g1) && ({
                            &&& g1.deck@ == g0.deck@
                            &&& g1.trash@.len() == 0
                            &&& g1.current_turn.spec_player_id() == next
                        }))
                        &&& newp.cards_in_hand@ == oldp.cards_in_hand@ + g0.trash@
                        &&& newp.three_up_cards == oldp.three_up_cards
                        &&& newp.three_down_cards == oldp.three_down_cards
                        &&& evs@ == seq![
                            ServerMessage::GiveTrash(cur),
                            ServerMessage::Turn(next),
                        ]
                    }))
                })
            }),
    {
        broadcast use vstd::seq_lib::group_to_multiset_ensures, vstd::multiset::group_multiset_axioms;

        match &self.state {
            LobbyState::Waiting => Err(GameServerError::GameHasntStartedYet),
            LobbyState::Choosing3Up(_) => {
                let (hand_len, up_len) = match self.player_list.get_player(client_id) {
                    Some(player) => (player.cards_in_hand.len(), player.three_up_cards.len()),
                    None => {
                        return Err(GameServerError::NotInALobby);
                    },
                };
                match clicked_card_location {
                    ClickedCardLocation::FromCardsInHand { card_index } => {
                        if card_index >= hand_len {
                            return Err(GameServerError::NoSuchCard);
                        }
                        let ghost players0 = self.spec_roster().spec_players();
                        let card = self.player_list.move_hand_card_to_up(client_id, card_index);
                        proof {
                            self.lemma_after_choosing_move(*old(self), client_id, players0);
                        }
                        let mut evs: Vec<ServerMessage> = Vec::new();
                        evs.push(
                            ServerMessage::MovePlayerCardFromHandToThreeUp {
                                hand_card_index: card_index,
                                player_id: client_id,
                            },
                        );
                        proof {
                            assert(evs@ =~= seq![
                                ServerMessage::MovePlayerCardFromHandToThreeUp {
                                    hand_card_index: card_index,
                                    player_id: client_id,
                                },
                            ]);
                        }
                        Ok(evs)
                    },
                    ClickedCardLocation::FromThreeUpCards { card_index } => {
                        if card_index >= up_len {
                            return Err(GameServerError::NoSuchCard);
                        }
                        let ghost players0 = self.spec_roster().spec_players();
                        let card = self.player_list.move_up_card_to_hand(client_id, card_index);
                        proof {
                            self.lemma_after_choosing_move(*old(self), client_id, players0);
                        }
                        let mut evs: Vec<ServerMessage> = Vec::new();
                        evs.push(
                            ServerMessage::MovePlayerCardFromThreeUpToHand {
                                up_three_card_index: card_index,
                                player_id: client_id,
                            },
                        );
                        proof {
                            assert(evs@ =~= seq![
                                ServerMessage::MovePlayerCardFromThreeUpToHand {
                                    up_three_card_index: card_index,
                                    player_id: client_id,
                                },
                            ]);
                        }
                        Ok(evs)
                    },
                    _ => Ok(Vec::new()),
                }
            },
            LobbyState::GameStarted(g) => {
                let current_turn_player_id = g.current_turn.player_id();
                if current_turn_player_id.0 != client_id.0 {
                    return Err(GameServerError::NotYourTurn);
                }
                let ghost g0 = match old(self).spec_state() {
                    LobbyState::GameStarted(g0) => g0,
                    _ => arbitrary(),
                };
                let effective_rank = g.trash.effective_trash_rank();
                proof {
                    crate::deck::lemma_effective_trash_rank_not_three(g.trash@);
                    if self.spec_roster().spec_order().len() > 0 {
                        assert(self.spec_roster().spec_order().contains(client_id));
                        assert(self.spec_roster().spec_contains(client_id));
                    }
                }
                let player = match self.player_list.get_player(client_id) {
                    Some(player) => player,
                    None => {
                        proof {
                            assert(self.spec_roster().spec_order().len() == 0) by {
                                if self.spec_roster().spec_order().len() > 0 {
                                    assert(self.spec_roster().spec_contains(client_id));
                                }
                            }
                        }
                        return Err(GameServerError::NotInALobby);
                    },
                };
                let placeable = player.what_cards_can_be_placed_on(effective_rank);
                if placeable.len() > 0 {
                    return Err(GameServerError::CantTakeTrashBecauseSomeCardsCanBePlayed);
                }
                let evs = self.claim_trash(client_id);
                Ok(evs)
            },
        }
    }

    /// Restores the lobby invariant after a selection-phase move of one
    /// card between a member's hand and up-cards.
    proof fn lemma_after_choosing_move(
        &self,
        pre: Lobby,
        client_id: ClientId,
        players0: Map<usize, LobbyPlayer>,
    )
        requires
            pre.wf(),
            pre.spec_state() is Choosing3Up,
            pre.spec_roster().spec_contains(client_id),
            players0 == pre.spec_roster().spec_players(),
            self.spec_state() == pre.spec_state(),
            self.spec_timers() == pre.spec_timers(),
            self.spec_id() == pre.spec_id(),
            self.spec_name() == pre.spec_name(),
            self.spec_owner() == pre.spec_owner(),
            self.spec_roster().wf(),
            self.spec_roster().spec_order() == pre.spec_roster().spec_order(),
            self.spec_roster().spec_players() == players0.insert(
                client_id.0,
                self.spec_roster().spec_players()[client_id.0],
            ),
            player_cards_multiset(self.spec_roster().spec_players()[client_id.0])
                == player_cards_multiset(players0[client_id.0]),
            ({
                let oldp = players0[client_id.0];
                let newp = self.spec_roster().spec_players()[client_id.0];
                &&& newp.cards_in_hand@.len() + newp.three_up_cards@.len() == oldp.cards_in_hand@
                    .len() + oldp.three_up_cards@.len()
                &&& newp.three_down_cards == oldp.three_down_cards
                &&& player_valid_ids(oldp) ==> player_valid_ids(newp)
            }),
        ensures
            self.wf(),
            self.spec_all_cards() == pre.spec_all_cards(),
    {
        let order = self.spec_roster().spec_order();
        let players1 = self.spec_roster().spec_players();
        let newp = players1[client_id.0];
        assert(order.contains(client_id)) by {
            assert(pre.spec_roster().wf());
        }
        crate::ordered_lobby_players::lemma_conserved_player_update(
            order,
            players0,
            client_id,
            newp,
        );
        let i0 = choose|i: int| 0 <= i < order.len() && order[i] == client_id;
        assert forall|i: int| 0 <= i < order.len() implies ({
            let p = players1[(#[trigger] order[i]).0];
            &&& player_valid_ids(p)
            &&& p.cards_in_hand@.len() + p.three_up_cards@.len() == INITIAL_CARDS_IN_HAND_AMOUNT
            &&& p.three_down_cards@.len() == THREE_DOWN_CARDS_AMOUNT
        }) by {
            if order[i].0 == client_id.0 {
                assert(players0[order[i].0] == players0[client_id.0]);
            } else {
                assert(players1[order[i].0] == players0[order[i].0]);
            }
        }
        assert(self.spec_all_cards() == pre.spec_all_cards());
    }

    /// Gives the whole trash to the current player and advances the turn:
    /// the successful trash claim.
    fn claim_trash(&mut self, client_id: ClientId) -> (evs: Vec<ServerMessage>)
        requires
            old(self).wf(),
            old(self).spec_roster().spec_order().len() > 0,
            old(self).spec_state() matches LobbyState::GameStarted(g0) && g0.current_turn
                .spec_player_id() == client_id,
        ensures
            final(self).wf(),
            final(self).spec_id() == old(self).spec_id(),
            final(self).spec_name() == old(self).spec_name(),
            final(self).spec_owner() == old(self).spec_owner(),
            final(self).spec_roster().spec_order() == old(self).spec_roster().spec_order(),
            final(self).spec_all_cards() == old(self).spec_all_cards(),
            old(self).spec_state() matches LobbyState::GameStarted(g0) ==> ({
                let cur = g0.current_turn.spec_player_id();
                let next = spec_next_after(old(self).spec_roster().spec_order(), cur);
                let oldp = old(self).spec_roster().spec_players()[cur.0];
                let newp = final(self).spec_roster().spec_players()[cur.0];
                &&& (final(self).spec_state() matches LobbyState::GameStarted(g1) && ({
                    &&& g1.deck@ == g0.deck@
                    &&& g1.trash@.len() == 0
                    &&& g1.current_turn.spec_player_id() == next
                }))
                &&& newp.cards_in_hand@ == oldp.cards_in_hand@ + g0.trash@
                &&& newp.three_up_cards == oldp.three_up_cards
                &&& newp.three_down_cards == oldp.three_down_cards
                &&& evs@ == seq![ServerMessage::GiveTrash(cur), ServerMessage::Turn(next)]
            }),
    {
        broadcast use vstd::seq_lib::group_to_multiset_ensures, vstd::multiset::group_multiset_axioms;

        let ghost players0 = self.spec_roster().spec_players();
        let ghost trash0 = match old(self).spec_state() {
            LobbyState::GameStarted(g) => g.trash@,
            _ => Seq::empty(),
        };
        let trash_cards = match &mut self.state {
            LobbyState::GameStarted(g) => g.trash.take_all(),
            _ => vstd::pervasive::unreached(),
        };
        proof {
            assert(self.spec_roster().spec_order().contains(client_id));
            assert(self.spec_roster().spec_contains(client_id));
        }
        self.player_list.give_cards_to_player(client_id, trash_cards);
        proof {
            let order = self.spec_roster().spec_order();
            let players1 = self.spec_roster().spec_players();
            let oldp = players0[client_id.0];
            let newp = players1[client_id.0];
            assert(players1 == players0.insert(client_id.0, newp));
            crate::ordered_lobby_players::lemma_roster_cards_update(
                order,
                players0,
                client_id,
                newp,
            );
            assert(newp.cards_in_hand@ == oldp.cards_in_hand@ + trash0);
            vstd::seq_lib::lemma_multiset_commutative(oldp.cards_in_hand@, trash0);
            let empty_trash = match self.spec_state() {
                LobbyState::GameStarted(g) => g.trash@,
                _ => Seq::empty(),
            };
            assert(empty_trash.len() == 0);
            vstd::multiset::lemma_multiset_empty_len(empty_trash.to_multiset());
            assert forall|e: CardId|
                self.spec_all_cards().count(e) == old(self).spec_all_cards().count(e) by {
                assert(roster_cards_multiset(order, players1).add(
                    player_cards_multiset(oldp),
                ).count(e) == roster_cards_multiset(order, players0).add(
                    player_cards_multiset(newp),
                ).count(e));
                assert(newp.cards_in_hand@.to_multiset().count(e) == oldp.cards_in_hand@
                    .to_multiset().count(e) + trash0.to_multiset().count(e));
                assert(empty_trash.to_multiset().count(e) == 0);
            }
            assert(self.spec_all_cards() =~= old(self).spec_all_cards());
            assert(spec_effective_trash_rank(empty_trash) == Rank::Two);
            assert forall|i: int| 0 <= i < order.len() implies player_valid_ids(
                players1[(#[trigger] order[i]).0],
            ) by {
                if order[i].0 == client_id.0 {
                    assert(valid_card_ids(trash0));
                    assert(player_valid_ids(oldp));
                    assert forall|k: int| 0 <= k < newp.cards_in_hand@.len() implies
                        crate::cards::valid_card_id(#[trigger] newp.cards_in_hand@[k]) by {
                        if k < oldp.cards_in_hand@.len() {
                            assert(newp.cards_in_hand@[k] == oldp.cards_in_hand@[k]);
                        } else {
                            assert(newp.cards_in_hand@[k] == trash0[k - oldp.cards_in_hand@.len()]);
                        }
                    }
                } else {
                    assert(players1[order[i].0] == players0[order[i].0]);
                }
            }
        }
        let mut evs: Vec<ServerMessage> = Vec::new();
        evs.push(ServerMessage::GiveTrash(client_id));
        let mut advance_evs = self.advance_turn();
        evs.append(&mut advance_evs);
        proof {
            assert(evs@ =~= seq![
                ServerMessage::GiveTrash(client_id),
                ServerMessage::Turn(
                    spec_next_after(old(self).spec_roster().spec_order(), client_id),
                ),
            ]);
        }
        evs
    }

    /// The timer for choosing the 3 up cards is over: resolves the race
    /// against cancellation, and if this timer is still the live one,
    /// auto-completes every player short of the required up-cards by
    /// moving cards from the end of their hand, announces which players
    /// were completed and with what, seats the first player of the turn
    /// order, and enters active play with an empty trash. A stale handle,
    /// another phase, or an emptied lobby does nothing.
    pub fn choose_3_up_timeout(&mut self, timer_handle: usize) -> (evs: Vec<ServerMessage>)
        requires
            old(self).wf(),
        ensures
            final(self).wf(),
            final(self).spec_id() == old(self).spec_id(),
            final(self).spec_name() == old(self).spec_name(),
            final(self).spec_owner() == old(self).spec_owner(),
            final(self).spec_roster().spec_order() == old(self).spec_roster().spec_order(),
            !(old(self).spec_state() is Choosing3Up) ==> *final(self) == *old(self) && evs@.len()
                == 0,
            old(self).spec_state() matches LobbyState::Choosing3Up(c0) ==> ({
                let order = old(self).spec_roster().spec_order();
                let players0 = old(self).spec_roster().spec_players();
                let changed = order.filter(
                    |id: ClientId| players0[id.0].three_up_cards@.len() < THREE_UP_CARDS_AMOUNT,
                );
                &&& (c0.timer_handle != timer_handle || order.len() == 0) ==> (*final(self)
                    == *old(self) && evs@.len() == 0)
                &&& (c0.timer_handle == timer_handle && order.len() > 0) ==> ({
                    &&& (final(self).spec_state() matches LobbyState::GameStarted(g1) && ({
                        &&& g1.deck@ == c0.deck@
                        &&& g1.trash@.len() == 0
                        &&& g1.current_turn.spec_player_id() == order[0]
                    }))
                    &&& forall|i: int|
                        0 <= i < order.len() ==> ({
                            let oldp = players0[(#[trigger] order[i]).0];
                            let newp = final(self).spec_roster().spec_players()[order[i].0];
                            &&& oldp.three_up_cards@.len() >= THREE_UP_CARDS_AMOUNT ==> newp
                                == oldp
                            &&& oldp.three_up_cards@.len() < THREE_UP_CARDS_AMOUNT ==> ({
                                &&& newp.three_up_cards@.len() == THREE_UP_CARDS_AMOUNT
                                &&& newp.three_up_cards@.take(oldp.three_up_cards@.len() as int)
                                    == oldp.three_up_cards@
                                &&& newp.cards_in_hand@ == oldp.cards_in_hand@.take(
                                    oldp.cards_in_hand@.len() - (THREE_UP_CARDS_AMOUNT
                                        - oldp.three_up_cards@.len()),
                                )
                                &&& newp.three_down_cards == oldp.three_down_cards
                                &&& player_cards_multiset(newp) == player_cards_multiset(oldp)
                            })
                        })
                    &&& evs@.len() == 2
                    &&& (evs@[0] matches ServerMessage::TheeUpSelectionDone {
                        three_up_cards_of_modified_players: m,
                    } && ({
                        &&& m@.len() == changed.len()
                        &&& forall|k: int|
                            0 <= k < m@.len() ==> ((#[trigger] m@[k]).0 == changed[k] && m@[k].1@
                                == final(self).spec_roster().spec_players()[changed[k].0]
                                .three_up_cards@)
                    }))
                    &&& evs@[1] == ServerMessage::Turn(order[0])
                })
            }),
    {
        broadcast use vstd::seq_lib::group_to_multiset_ensures, vstd::multiset::group_multiset_axioms;

        let relevant = match &self.state {
            LobbyState::Choosing3Up(c) => c.timer_handle == timer_handle,
            _ => false,
        };
        if !relevant || self.player_list.is_empty() {
            return Vec::new();
        }
        let ghost order = self.spec_roster().spec_order();
        let ghost players_start = self.spec_roster().spec_players();
        let ghost pred = |id: ClientId| players_start[id.0].three_up_cards@.len()
            < THREE_UP_CARDS_AMOUNT;
        let ghost roster_ms_start = roster_cards_multiset(order, players_start);

        let ids = self.player_list.player_ids();
        let n = ids.len();
        let mut modified: Vec<(ClientId, Vec<CardId>)> = Vec::new();
        let mut i: usize = 0;
        while i < n
            invariant
                old(self).wf(),
                old(self).spec_state() is Choosing3Up,
                players_start == old(self).spec_roster().spec_players(),
                order == old(self).spec_roster().spec_order(),
                n == ids@.len(),
                ids@ == order,
                i <= n,
                self.spec_roster().wf(),
                self.spec_roster().spec_order() == order,
                self.spec_id() == old(self).spec_id(),
                self.spec_name() == old(self).spec_name(),
                self.spec_owner() == old(self).spec_owner(),
                self.spec_state() == old(self).spec_state(),
                self.spec_timers() == old(self).spec_timers(),
                pred == (|id: ClientId| players_start[id.0].three_up_cards@.len()
                    < THREE_UP_CARDS_AMOUNT),
                roster_cards_multiset(order, self.spec_roster().spec_players())
                    == roster_ms_start,
                forall|j: int|
                    i <= j < n ==> self.spec_roster().spec_players()[(#[trigger] ids@[j]).0]
                        == players_start[ids@[j].0],
                forall|j: int|
                    0 <= j < i ==> ({
                        let oldp = players_start[(#[trigger] ids@[j]).0];
                        let newp = self.spec_roster().spec_players()[ids@[j].0];
                        &&& oldp.three_up_cards@.len() >= THREE_UP_CARDS_AMOUNT ==> newp == oldp
                        &&& oldp.three_up_cards@.len() < THREE_UP_CARDS_AMOUNT ==> ({
                            &&& newp.three_up_cards@.len() == THREE_UP_CARDS_AMOUNT
                            &&& newp.three_up_cards@.take(oldp.three_up_cards@.len() as int)
                                == oldp.three_up_cards@
                            &&& newp.cards_in_hand@ == oldp.cards_in_hand@.take(
                                oldp.cards_in_hand@.len() - (THREE_UP_CARDS_AMOUNT
                                    - oldp.three_up_cards@.len()),
                            )
                            &&& newp.three_down_cards == oldp.three_down_cards
                            &&& player_cards_multiset(newp) == player_cards_multiset(oldp)
                        })
                        &&& player_valid_ids(players_start[ids@[j].0]) ==> player_valid_ids(newp)
                        &&& newp.cards_in_hand@.len() + newp.three_up_cards@.len() == oldp
                            .cards_in_hand@.len() + oldp.three_up_cards@.len()
                    }),
                modified@.map_values(|p: (ClientId, Vec<CardId>)| p.0) == ids@.take(
                    i as int,
                ).filter(pred),
                forall|k: int|
                    0 <= k < modified@.len() ==> (#[trigger] modified@[k]).1@
                        == self.spec_roster().spec_players()[modified@[k].0.0].three_up_cards@,
                forall|k: int|
                    0 <= k < modified@.len() ==> exists|j: int|
                        0 <= j < i && ids@[j] == (#[trigger] modified@[k]).0,
            decreases n - i,
        {
            let id = ids[i];
            proof {
                assert(self.spec_roster().spec_order()[i as int] == id);
                assert(self.spec_roster().spec_contains(id));
                assert(ids@.take(i + 1).drop_last() =~= ids@.take(i as int));
                assert(ids@.take(i + 1).last() == ids@[i as int]);
                reveal_with_fuel(Seq::filter, 2);
            }
            let up_len = match self.player_list.get_player(id) {
                Some(player) => player.three_up_cards.len(),
                None => vstd::pervasive::unreached(),
            };
            if up_len < THREE_UP_CARDS_AMOUNT {
                let ghost p_start = self.spec_roster().spec_players()[id.0];
                let ghost players_i = self.spec_roster().spec_players();
                proof {
                    assert(p_start == players_start[id.0]);
                    assert(roster_choosing_counts(old(self).spec_roster()));
                    assert(roster_valid_ids(old(self).spec_roster()));
                    assert(p_start.cards_in_hand@.len() + p_start.three_up_cards@.len()
                        == INITIAL_CARDS_IN_HAND_AMOUNT);
                    assert(player_valid_ids(p_start));
                    assert(p_start.three_up_cards@.take(up_len as int) =~= p_start.three_up_cards@);
                    assert(p_start.cards_in_hand@.take(
                        p_start.cards_in_hand@.len() - 0,
                    ) =~= p_start.cards_in_hand@);
                    assert(players_i =~= players_i.insert(id.0, players_i[id.0]));
                }
                let mut up_now = up_len;
                while up_now < THREE_UP_CARDS_AMOUNT
                    invariant
                        up_len <= up_now <= THREE_UP_CARDS_AMOUNT,
                        self.spec_roster().wf(),
                        self.spec_roster().spec_order() == order,
                        0 <= i < order.len(),
                        order[i as int] == id,
                        self.spec_roster().spec_contains(id),
                        self.spec_id() == old(self).spec_id(),
                        self.spec_name() == old(self).spec_name(),
                        self.spec_owner() == old(self).spec_owner(),
                        self.spec_state() == old(self).spec_state(),
                        self.spec_timers() == old(self).spec_timers(),
                        p_start == players_i[id.0],
                        up_len == p_start.three_up_cards@.len(),
                        ({
                            let curp = self.spec_roster().spec_players()[id.0];
                            &&& curp.three_up_cards@.len() == up_now
                            &&& curp.three_up_cards@.take(up_len as int) == p_start.three_up_cards@
                            &&& curp.cards_in_hand@ == p_start.cards_in_hand@.take(
                                p_start.cards_in_hand@.len() - (up_now - up_len),
                            )
                            &&& curp.three_down_cards == p_start.three_down_cards
                            &&& player_cards_multiset(curp) == player_cards_multiset(p_start)
                            &&& player_valid_ids(p_start) ==> player_valid_ids(curp)
                            &&& curp.cards_in_hand@.len() + curp.three_up_cards@.len() == p_start
                                .cards_in_hand@.len() + p_start.three_up_cards@.len()
                            &&& p_start.cards_in_hand@.len() + p_start.three_up_cards@.len()
                                == INITIAL_CARDS_IN_HAND_AMOUNT
                        }),
                        self.spec_roster().spec_players() == players_i.insert(
                            id.0,
                            self.spec_roster().spec_players()[id.0],
                        ),
                        roster_cards_multiset(order, self.spec_roster().spec_players())
                            == roster_cards_multiset(order, players_i),
                    decreases THREE_UP_CARDS_AMOUNT - up_now,
                {
                    let ghost players_inner = self.spec_roster().spec_players();
                    let ghost curp0 = players_inner[id.0];
                    let moved = self.player_list.move_last_hand_card_to_up(id);
                    proof {
                        let curp1 = self.spec_roster().spec_players()[id.0];
                        crate::ordered_lobby_players::lemma_conserved_player_update(
                            order,
                            players_inner,
                            id,
                            curp1,
                        );
                        assert(curp1.cards_in_hand@ =~= p_start.cards_in_hand@.take(
                            p_start.cards_in_hand@.len() - (up_now + 1 - up_len),
                        ));
                        assert(curp1.three_up_cards@.take(up_len as int) =~= p_start
                            .three_up_cards@);
                        assert(self.spec_roster().spec_players() =~= players_i.insert(
                            id.0,
                            curp1,
                        ));
                        if player_valid_ids(p_start) {
                            assert(player_valid_ids(curp0));
                            assert forall|k: int| 0 <= k < curp1.three_up_cards@.len() implies
                                crate::cards::valid_card_id(
                                #[trigger] curp1.three_up_cards@[k],
                            ) by {
                                if k < curp0.three_up_cards@.len() {
                                    assert(curp1.three_up_cards@[k] == curp0.three_up_cards@[k]);
                                } else {
                                    assert(curp1.three_up_cards@[k] == curp0.cards_in_hand@.last());
                                    assert(curp0.cards_in_hand@.contains(
                                        curp0.cards_in_hand@.last(),
                                    ));
                                }
                            }
                            assert forall|k: int| 0 <= k < curp1.cards_in_hand@.len() implies
                                crate::cards::valid_card_id(
                                #[trigger] curp1.cards_in_hand@[k],
                            ) by {
                                assert(curp1.cards_in_hand@[k] == curp0.cards_in_hand@[k]);
                            }
                        }
                    }
                    up_now = up_now + 1;
                }
                let up_copy = match self.player_list.get_player(id) {
                    Some(player) => copy_ids(&player.three_up_cards),
                    None => vstd::pervasive::unreached(),
                };
                modified.push((id, up_copy));
                proof {
                    assert(modified@.map_values(|p: (ClientId, Vec<CardId>)| p.0) =~= ids@.take(
                        i + 1,
                    ).filter(pred));
                    assert forall|k: int| 0 <= k < modified@.len() implies
                        (#[trigger] modified@[k]).1@
                        == self.spec_roster().spec_players()[modified@[k].0.0]
                        .three_up_cards@ by {
                        if k < modified@.len() - 1 {
                            assert(modified@[k] == modified@.drop_last()[k]);
                            let j = choose|j: int| 0 <= j < i && ids@[j] == modified@[k].0;
                            assert(ids@[j] != ids@[i as int]);
                            assert(modified@[k].0.0 != id.0);
                            assert(self.spec_roster().spec_players()[modified@[k].0.0]
                                == players_i[modified@[k].0.0]);
                        }
                    }
                    assert forall|k: int| 0 <= k < modified@.len() implies exists|j: int|
                        0 <= j < i + 1 && ids@[j] == (#[trigger] modified@[k]).0 by {
                        if k < modified@.len() - 1 {
                            assert(modified@[k] == modified@.drop_last()[k]);
                            let j = choose|j: int| 0 <= j < i && ids@[j] == modified@[k].0;
                            assert(0 <= j < i + 1 && ids@[j] == modified@[k].0);
                        } else {
                            assert(ids@[i as int] == modified@[k].0);
                        }
                    }
                }
            } else {
                proof {
                    assert(ids@.take(i + 1).filter(pred) =~= ids@.take(i as int).filter(pred));
                }
            }
            proof {
                let players1 = self.spec_roster().spec_players();
                assert forall|j: int| i + 1 <= j < n implies players1[(#[trigger] ids@[j]).0]
                    == players_start[ids@[j].0] by {
                    assert(ids@[j] != ids@[i as int]);
                }
            }
            i = i + 1;
        }
        // the auto-completion is done; resolve the timer and start play
        let fired = self.timers.fire(timer_handle);
        let first_turn_player_id = self.player_list.first_turn_player();
        let new_handle = self.timers.create();
        let mut tmp_state = LobbyState::Waiting;
        core::mem::swap(&mut self.state, &mut tmp_state);
        let deck = match tmp_state {
            LobbyState::Choosing3Up(c) => c.deck,
            _ => vstd::pervasive::unreached(),
        };
        self.state = LobbyState::GameStarted(
            InGameLobbyState {
                deck,
                trash: CardsDeck::empty(),
                current_turn: Turn::new(first_turn_player_id, new_handle),
            },
        );
        let mut evs: Vec<ServerMessage> = Vec::new();
        evs.push(
            ServerMessage::TheeUpSelectionDone { three_up_cards_of_modified_players: modified },
        );
        evs.push(ServerMessage::Turn(first_turn_player_id));
        proof {
            let empty_trash = match self.spec_state() {
                LobbyState::GameStarted(g) => g.trash@,
                _ => Seq::empty(),
            };
            assert(empty_trash.len() == 0);
            vstd::multiset::lemma_multiset_empty_len(empty_trash.to_multiset());
            assert(spec_effective_trash_rank(empty_trash) == Rank::Two);
            assert(self.spec_all_cards() =~= old(self).spec_all_cards());
            assert(self.spec_timers().only_pending(new_handle as int));
            assert(ids@.take(n as int) =~= ids@);
        }
        evs
    }


    /// A copy of the given member's hand, if they are a member.
    pub fn cards_in_hand_of(&self, player_id: ClientId) -> (r: Option<Vec<CardId>>)
        ensures
            self.spec_roster().spec_contains(player_id) ==> (r matches Some(cards) && cards@
                == self.spec_roster().spec_players()[player_id.0].cards_in_hand@),
            !self.spec_roster().spec_contains(player_id) ==> r is None,
    {
        match self.player_list.get_player(player_id) {
            Some(player) => Some(copy_ids(&player.cards_in_hand)),
            None => None,
        }
    }

    /// The turn-change announcements that removing the given player emits
    /// before the roster changes: exactly one, when the game is running
    /// and the departing player holds the current turn.
    pub open spec fn spec_removal_turn_events(self, player_id: ClientId) -> Seq<ServerMessage> {
        match self.spec_state() {
            LobbyState::GameStarted(g) => if g.current_turn.spec_player_id() == player_id {
                seq![
                    ServerMessage::Turn(
                        spec_next_after(self.spec_roster().spec_order(), player_id),
                    ),
                ]
            } else {
                Seq::empty()
            },
            _ => Seq::empty(),
        }
    }

    /// Removes the player with the given id from the lobby.
    /// If that player holds the current turn, the turn is advanced to the
    /// next player first, before the roster changes, so the state machine
    /// never holds a turn for a departed player. If removal leaves exactly
    /// one player, the game is stopped. If the removed player was the
    /// owner, ownership passes to the first remaining player; if nobody
    /// remains, the caller is told to destroy the lobby.
    pub fn remove_player(&mut self, player_id: ClientId) -> (r: (
        RemovePlayerFromLobbyResult,
        Vec<ServerMessage>,
    ))
        requires
            old(self).wf(),
        ensures
            final(self).wf(),
            final(self).spec_id() == old(self).spec_id(),
            final(self).spec_name() == old(self).spec_name(),
            !old(self).spec_roster().spec_contains(player_id) ==> (*final(self) == *old(self)
                && r.0 is PlayerWasntInLobby && r.1@.len() == 0),
            old(self).spec_roster().spec_contains(player_id) ==> ({
                let order0 = old(self).spec_roster().spec_order();
                let pos = crate::ordered_lobby_players::spec_position(order0, player_id);
                &&& final(self).spec_roster().spec_order() == order0.remove(pos)
                &&& !final(self).spec_roster().spec_contains(player_id)
                &&& final(self).spec_roster().spec_order().len() == order0.len() - 1
                &&& order0.len() == 1 ==> r.0 is LobbyNowEmpty
                &&& (order0.len() > 1 && player_id == old(self).spec_owner()) ==> (
                r.0 matches RemovePlayerFromLobbyResult::NewOwner(new_owner) && new_owner
                    == final(self).spec_roster().spec_order()[0] && final(self).spec_owner()
                    == new_owner)
                &&& (order0.len() > 1 && player_id != old(self).spec_owner()) ==> (
                r.0 is Removed && final(self).spec_owner() == old(self).spec_owner())
                &&& order0.len() == 2 ==> final(self).spec_state() is Waiting
                &&& !(old(self).spec_state() is GameStarted) ==> r.1@.len() == 0
                &&& old(self).spec_state() matches LobbyState::GameStarted(g0) ==> ({
                    &&& g0.current_turn.spec_player_id() != player_id ==> r.1@.len() == 0
                    &&& g0.current_turn.spec_player_id() == player_id ==> r.1@ == seq![
                        ServerMessage::Turn(spec_next_after(order0, player_id)),
                    ]
                })
            }),
    {
        let mut evs: Vec<ServerMessage> = Vec::new();
        let contained = match self.player_list.get_player(player_id) {
            Some(_) => true,
            None => false,
        };
        if !contained {
            return (RemovePlayerFromLobbyResult::PlayerWasntInLobby, evs);
        }
        proof {
            assert(self.spec_roster().spec_order().contains(player_id)) by {
                assert(self.spec_roster().spec_contains(player_id));
            }
            assert(self.spec_roster().spec_order().len() > 0);
        }

        // if the removed player holds the current turn, move the turn to
        // the next player. This must be done before removing the player,
        // because afterwards there is no way to find who comes after them.
        let is_current = match &self.state {
            LobbyState::GameStarted(g) => g.current_turn.player_id().0 == player_id.0,
            _ => false,
        };
        if is_current {
            let mut advance_evs = self.advance_turn();
            evs.append(&mut advance_evs);
        }

        let ghost order0 = self.spec_roster().spec_order();
        let ghost players0 = self.spec_roster().spec_players();
        let ghost pos = crate::ordered_lobby_players::spec_position(order0, player_id);
        let ghost pre = *self;
        proof {
            crate::ordered_lobby_players::lemma_position(order0, player_id);
            match pre.spec_state() {
                LobbyState::GameStarted(g1) => {
                    let len = order0.len() as int;
                    if is_current && len > 1 {
                        let p2 = (pos + 1) % len;
                        assert(p2 == if pos + 1 < len {
                            pos + 1
                        } else {
                            0
                        }) by (nonlinear_arith)
                            requires
                                0 <= pos < len,
                                p2 == (pos + 1) % len,
                        ;
                        assert(0 <= p2 < len && p2 != pos);
                        assert(order0.no_duplicates());
                        assert(order0[p2] != order0[pos]);
                        assert(g1.current_turn.spec_player_id() == order0[p2]);
                    }
                },
                _ => {},
            }
        }

        // remove the player; their cards leave the game with them
        let removed = self.player_list.remove(player_id);
        proof {
            self.lemma_after_removal(pre, player_id);
        }

        // if there is only 1 player left, stop the game.
        if self.players_amount() == 1 {
            self.stop_game();
        }

        // if the removed player was the owner, hand ownership on
        let result = if player_id.0 == self.owner_id.0 {
            if self.player_list.is_empty() {
                RemovePlayerFromLobbyResult::LobbyNowEmpty
            } else {
                let new_owner_id = self.player_list.first_turn_player();
                self.owner_id = new_owner_id;
                proof {
                    assert(self.spec_roster().spec_order().contains(new_owner_id)) by {
                        assert(self.spec_roster().spec_order()[0] == new_owner_id);
                    }
                }
                RemovePlayerFromLobbyResult::NewOwner(new_owner_id)
            }
        } else {
            if self.player_list.is_empty() {
                RemovePlayerFromLobbyResult::LobbyNowEmpty
            } else {
                proof {
                    assert(self.spec_roster().spec_contains(old(self).spec_owner())) by {
                        let remaining = self.spec_roster().spec_order();
                        assert(remaining.len() > 0);
                        assert(pre.spec_roster().spec_contains(pre.spec_owner()));
                        assert(pre.spec_owner().0 != player_id.0);
                    }
                }
                RemovePlayerFromLobbyResult::Removed
            }
        };
        (result, evs)
    }

    /// Restores the lobby invariant, except the owner's membership, right
    /// after a member was removed from the roster.
    proof fn lemma_after_removal(&self, pre: Lobby, player_id: ClientId)
        requires
            pre.wf(),
            pre.spec_roster().spec_contains(player_id),
            pre.spec_state() matches LobbyState::GameStarted(g0) ==> g0.current_turn
                .spec_player_id() != player_id || pre.spec_roster().spec_order().len() == 1,
            self.spec_state() == pre.spec_state(),
            self.spec_timers() == pre.spec_timers(),
            self.spec_id() == pre.spec_id(),
            self.spec_name() == pre.spec_name(),
            self.spec_owner() == pre.spec_owner(),
            self.spec_roster().wf(),
            self.spec_roster().spec_players() == pre.spec_roster().spec_players().remove(
                player_id.0,
            ),
            self.spec_roster().spec_order() == pre.spec_roster().spec_order().remove(
                crate::ordered_lobby_players::spec_position(
                    pre.spec_roster().spec_order(),
                    player_id,
                ),
            ),
            !self.spec_roster().spec_order().contains(player_id),
        ensures
            self.wf_sans_owner(),
    {
        broadcast use vstd::multiset::group_multiset_axioms;

        let order0 = pre.spec_roster().spec_order();
        let players0 = pre.spec_roster().spec_players();
        let order1 = self.spec_roster().spec_order();
        let players1 = self.spec_roster().spec_players();
        let pos = crate::ordered_lobby_players::spec_position(order0, player_id);
        crate::ordered_lobby_players::lemma_position(order0, player_id);

        // every remaining member keeps the hand state it had
        assert forall|i: int| 0 <= i < order1.len() implies players1[(#[trigger] order1[i]).0]
            == players0[order1[i].0] by {
            assert(order1[i] != player_id);
            assert(order1[i].0 != player_id.0);
        }

        // the remaining cards are a sub-multiset of what was there before
        crate::ordered_lobby_players::lemma_roster_cards_remove(order0, players0, pos);
        crate::ordered_lobby_players::lemma_roster_cards_congruence(order1, players0, players1);
        assert forall|e: CardId|
            roster_cards_multiset(order1, players1).count(e) <= roster_cards_multiset(
                order0,
                players0,
            ).count(e) by {
            assert(roster_cards_multiset(order0, players0).count(e) == roster_cards_multiset(
                order1,
                players0,
            ).count(e) + player_cards_multiset(players0[order0[pos].0]).count(e));
        }

        assert forall|e: CardId| #[trigger] self.spec_all_cards().count(e) <= 1 by {
            assert(cards_exclusive(pre.spec_all_cards()));
            assert(pre.spec_all_cards().count(e) <= 1);
            match self.spec_state() {
                LobbyState::Waiting => {},
                LobbyState::Choosing3Up(c) => {
                    assert(self.spec_all_cards().count(e) == c.deck@.to_multiset().count(e)
                        + roster_cards_multiset(order1, players1).count(e));
                    assert(pre.spec_all_cards().count(e) == c.deck@.to_multiset().count(e)
                        + roster_cards_multiset(order0, players0).count(e));
                },
                LobbyState::GameStarted(g) => {
                    assert(self.spec_all_cards().count(e) == g.deck@.to_multiset().count(e)
                        + g.trash@.to_multiset().count(e) + roster_cards_multiset(
                        order1,
                        players1,
                    ).count(e));
                    assert(pre.spec_all_cards().count(e) == g.deck@.to_multiset().count(e)
                        + g.trash@.to_multiset().count(e) + roster_cards_multiset(
                        order0,
                        players0,
                    ).count(e));
                },
            }
        }
        match self.spec_state() {
            LobbyState::Waiting => {
                assert forall|i: int| 0 <= i < order1.len() implies player_no_cards(
                    players1[(#[trigger] order1[i]).0],
                ) by {
                    let j: int = if i < pos {
                        i
                    } else {
                        i + 1
                    };
                    assert(order1[i] == order0[j]);
                    assert(player_no_cards(players0[order0[j].0]));
                }
            },
            LobbyState::Choosing3Up(c) => {
                assert forall|i: int| 0 <= i < order1.len() implies ({
                    let p = players1[(#[trigger] order1[i]).0];
                    &&& player_valid_ids(p)
                    &&& p.cards_in_hand@.len() + p.three_up_cards@.len()
                        == INITIAL_CARDS_IN_HAND_AMOUNT
                    &&& p.three_down_cards@.len() == THREE_DOWN_CARDS_AMOUNT
                }) by {
                    let j: int = if i < pos {
                        i
                    } else {
                        i + 1
                    };
                    assert(order1[i] == order0[j]);
                }
            },
            LobbyState::GameStarted(g) => {
                assert forall|i: int| 0 <= i < order1.len() implies player_valid_ids(
                    players1[(#[trigger] order1[i]).0],
                ) by {
                    let j: int = if i < pos {
                        i
                    } else {
                        i + 1
                    };
                    assert(order1[i] == order0[j]);
                }
                if order1.len() > 0 {
                    let cur = g.current_turn.spec_player_id();
                    assert(order0.len() > 1);
                    assert(cur != player_id);
                    assert(players0.contains_key(cur.0)) by {
                        assert(order0.contains(cur));
                        let k = choose|k: int| 0 <= k < order0.len() && order0[k] == cur;
                        assert(players0.contains_key(order0[k].0));
                    }
                    assert(players1.contains_key(cur.0));
                    assert(order1.contains(ClientId(cur.0)));
                    assert(ClientId(cur.0) == cur);
                }
            },
        }
    }

    /// Stops the game, if one is running: cancels whatever timer the phase
    /// holds, discards the deck and the trash, takes every member's cards
    /// back, and returns the lobby to the waiting state.
    pub fn stop_game(&mut self)
        requires
            old(self).wf_sans_owner(),
        ensures
            final(self).wf_sans_owner(),
            old(self).wf_owner() ==> final(self).wf(),
            final(self).spec_id() == old(self).spec_id(),
            final(self).spec_name() == old(self).spec_name(),
            final(self).spec_owner() == old(self).spec_owner(),
            final(self).spec_roster().spec_order() == old(self).spec_roster().spec_order(),
            final(self).spec_state() is Waiting,
    {
        let pending = self.pending_timer();
        match pending {
            Some(h) => self.timers.cancel(h),
            None => {},
        }
        self.state = LobbyState::Waiting;
        let ids = self.player_list.player_ids();
        let n = ids.len();
        let mut i: usize = 0;
        while i < n
            invariant
                n == ids@.len(),
                i <= n,
                self.spec_roster().wf(),
                self.spec_roster().spec_order() == ids@,
                self.spec_id() == old(self).spec_id(),
                self.spec_name() == old(self).spec_name(),
                self.spec_owner() == old(self).spec_owner(),
                self.spec_state() is Waiting,
                self.spec_timers().none_pending(),
                n <= MAX_PLAYERS_IN_LOBBY,
                old(self).wf_owner() && n > 0 ==> self.spec_roster().spec_contains(
                    old(self).spec_owner(),
                ),
                forall|j: int|
                    0 <= j < i ==> player_no_cards(
                        self.spec_roster().spec_players()[(#[trigger] ids@[j]).0],
                    ),
            decreases n - i,
        {
            let id = ids[i];
            proof {
                assert(self.spec_roster().spec_order()[i as int] == id);
                assert(self.spec_roster().spec_contains(id));
            }
            let cleared = LobbyPlayer::without_any_cards();
            let ghost players0 = self.spec_roster().spec_players();
            self.player_list.replace_player(id, cleared);
            proof {
                let players1 = self.spec_roster().spec_players();
                assert forall|j: int| 0 <= j < i + 1 implies player_no_cards(
                    self.spec_roster().spec_players()[(#[trigger] ids@[j]).0],
                ) by {
                    if j < i {
                        assert(ids@[j] != ids@[i as int]);
                        assert(players1[ids@[j].0] == players0[ids@[j].0]);
                    } else {
                        assert(players1[id.0] == cleared);
                    }
                }
            }
            i = i + 1;
        }
    }
}

/// Exclusive card location: in a lobby that holds the whole catalog —
/// as a fresh deal establishes and as every in-play operation preserves —
/// every catalog card is in exactly one of the deck, the trash, and the
/// members' piles, and nothing else ever appears.
pub proof fn lemma_exclusive_card_location(l: Lobby)
    requires
        l.wf(),
        l.spec_all_cards() == all_card_ids_seq().to_multiset(),
    ensures
        forall|id: CardId|
            crate::cards::valid_card_id(id) ==> #[trigger] l.spec_all_cards().count(id) == 1,
        forall|id: CardId|
            !crate::cards::valid_card_id(id) ==> #[trigger] l.spec_all_cards().count(id) == 0,
{
    broadcast use vstd::seq_lib::group_to_multiset_ensures;

    let all = all_card_ids_seq();
    assert(all.no_duplicates());
    all.lemma_multiset_has_no_duplicates();
    assert forall|id: CardId| crate::cards::valid_card_id(id) implies #[trigger] l.spec_all_cards()
        .count(id) == 1 by {
        assert(all[id.spec_raw()] == id);
        assert(all.contains(id));
        assert(all.to_multiset().count(id) > 0);
        assert(all.to_multiset().contains(id));
    }
    assert forall|id: CardId| !crate::cards::valid_card_id(id) implies #[trigger] l.spec_all_cards()
        .count(id) == 0 by {
        if all.to_multiset().count(id) > 0 {
            assert(all.contains(id));
            let j = choose|j: int| 0 <= j < all.len() && all[j] == id;
            assert(all[j] == CardId(j as usize));
        }
    }
}

/// Single live timer: a well-formed lobby never has two outstanding
/// timers. Every turn transition passes through the same choke point,
/// which cancels the old timer before arming the new one.
pub proof fn lemma_single_live_timer(l: Lobby)
    requires
        l.wf(),
    ensures
        forall|h1: int, h2: int|
            l.spec_timers().is_pending(h1) && l.spec_timers().is_pending(h2) ==> h1 == h2,
{
    assert forall|h1: int, h2: int|
        l.spec_timers().is_pending(h1) && l.spec_timers().is_pending(h2) implies h1 == h2 by {
        match l.spec_state() {
            LobbyState::Waiting => {
                assert(!l.spec_timers().is_pending(h1));
            },
            LobbyState::Choosing3Up(c) => {
                assert(h1 == c.timer_handle as int);
                assert(h2 == c.timer_handle as int);
            },
            LobbyState::GameStarted(g) => {
                assert(h1 == g.current_turn.spec_timer_handle());
                assert(h2 == g.current_turn.spec_timer_handle());
            },
        }
    }
}

} // verus!
