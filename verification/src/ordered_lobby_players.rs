//! A list of players in the lobby, ordered by their turns: a map from
//! client id to hand state, plus an explicit turn-order sequence.

use vstd::prelude::*;
use vstd::multiset::Multiset;
use std::collections::HashMap;

use crate::cards::CardId;
use crate::game_server::ClientId;
use crate::lobby_player::LobbyPlayer;
use crate::lobby_player::player_cards_multiset;

verus! {

broadcast use
    vstd::std_specs::hash::group_hash_axioms,
    vstd::multiset::group_multiset_axioms;

/// Every card held by any member of the roster, over all members of the
/// turn order and all three piles of each.
pub open spec fn roster_cards_multiset(
    order: Seq<ClientId>,
    players: Map<usize, LobbyPlayer>,
) -> Multiset<CardId>
    decreases order.len(),
{
    if order.len() == 0 {
        Multiset::empty()
    } else {
        player_cards_multiset(players[order[0].0]).add(
            roster_cards_multiset(order.drop_first(), players),
        )
    }
}

/// Two player maps that agree on every member of the turn order give the
/// same roster multiset.
pub proof fn lemma_roster_cards_congruence(
    order: Seq<ClientId>,
    players1: Map<usize, LobbyPlayer>,
    players2: Map<usize, LobbyPlayer>,
)
    requires
        forall|i: int| 0 <= i < order.len() ==> players1[(#[trigger] order[i]).0] == players2[order[i].0],
    ensures
        roster_cards_multiset(order, players1) == roster_cards_multiset(order, players2),
    decreases order.len(),
{
    if order.len() > 0 {
        let rest = order.drop_first();
        assert forall|i: int| 0 <= i < rest.len() implies players1[(#[trigger] rest[i]).0]
            == players2[rest[i].0] by {
            assert(rest[i] == order[i + 1]);
        }
        lemma_roster_cards_congruence(rest, players1, players2);
    }
}

/// Replacing the hand state of one member changes the roster multiset by
/// exactly the difference between the old and the new hand state.
pub proof fn lemma_roster_cards_update(
    order: Seq<ClientId>,
    players: Map<usize, LobbyPlayer>,
    id: ClientId,
    p2: LobbyPlayer,
)
    requires
        order.no_duplicates(),
        order.contains(id),
    ensures
        roster_cards_multiset(order, players.insert(id.0, p2)).add(
            player_cards_multiset(players[id.0]),
        ) == roster_cards_multiset(order, players).add(player_cards_multiset(p2)),
    decreases order.len(),
{
    let players2 = players.insert(id.0, p2);
    assert(order.len() > 0);
    let rest = order.drop_first();
    assert(roster_cards_multiset(order, players2) == player_cards_multiset(
        players2[order[0].0],
    ).add(roster_cards_multiset(rest, players2)));
    assert(roster_cards_multiset(order, players) == player_cards_multiset(players[order[0].0]).add(
        roster_cards_multiset(rest, players),
    ));
    if order[0] == id {
        assert(players2[id.0] == p2);
        assert forall|i: int| 0 <= i < rest.len() implies players[(#[trigger] rest[i]).0]
            == players2[rest[i].0] by {
            assert(rest[i] == order[i + 1]);
            assert(rest[i] != id);
            assert(rest[i].0 != id.0);
        }
        lemma_roster_cards_congruence(rest, players, players2);
        assert(roster_cards_multiset(order, players2).add(player_cards_multiset(players[id.0]))
            =~= roster_cards_multiset(order, players).add(player_cards_multiset(p2)));
    } else {
        assert(rest.contains(id)) by {
            let i = choose|i: int| 0 <= i < order.len() && order[i] == id;
            assert(rest[i - 1] == order[i]);
        }
        assert(rest.no_duplicates());
        lemma_roster_cards_update(rest, players, id, p2);
        assert(order[0].0 != id.0);
        assert(players2[order[0].0] == players[order[0].0]);
        assert forall|e: CardId|
            roster_cards_multiset(order, players2).add(
                player_cards_multiset(players[id.0]),
            ).count(e) == roster_cards_multiset(order, players).add(
                player_cards_multiset(p2),
            ).count(e) by {
            assert(roster_cards_multiset(rest, players2).add(
                player_cards_multiset(players[id.0]),
            ).count(e) == roster_cards_multiset(rest, players).add(
                player_cards_multiset(p2),
            ).count(e));
        }
        assert(roster_cards_multiset(order, players2).add(player_cards_multiset(players[id.0]))
            =~= roster_cards_multiset(order, players).add(player_cards_multiset(p2)));
    }
}

/// Deleting the member at one position of the turn order removes exactly
/// that member's cards from the roster multiset.
pub proof fn lemma_roster_cards_remove(
    order: Seq<ClientId>,
    players: Map<usize, LobbyPlayer>,
    pos: int,
)
    requires
        0 <= pos < order.len(),
    ensures
        roster_cards_multiset(order, players) == roster_cards_multiset(order.remove(pos), players)
            .add(player_cards_multiset(players[order[pos].0])),
    decreases order.len(),
{
    if pos == 0 {
        assert(order.remove(0) =~= order.drop_first());
    } else {
        assert(order.remove(pos).drop_first() =~= order.drop_first().remove(pos - 1));
        lemma_roster_cards_remove(order.drop_first(), players, pos - 1);
        assert(roster_cards_multiset(order, players) =~= roster_cards_multiset(
            order.remove(pos),
            players,
        ).add(player_cards_multiset(players[order[pos].0])));
    }
}

/// Replacing a member's hand state with one holding the same cards leaves
/// the roster multiset unchanged.
pub proof fn lemma_conserved_player_update(
    order: Seq<ClientId>,
    players: Map<usize, LobbyPlayer>,
    id: ClientId,
    p2: LobbyPlayer,
)
    requires
        order.no_duplicates(),
        order.contains(id),
        player_cards_multiset(p2) == player_cards_multiset(players[id.0]),
    ensures
        roster_cards_multiset(order, players.insert(id.0, p2)) == roster_cards_multiset(
            order,
            players,
        ),
{
    lemma_roster_cards_update(order, players, id, p2);
    assert forall|e: CardId|
        roster_cards_multiset(order, players.insert(id.0, p2)).count(e)
            == roster_cards_multiset(order, players).count(e) by {
        assert(roster_cards_multiset(order, players.insert(id.0, p2)).add(
            player_cards_multiset(players[id.0]),
        ).count(e) == roster_cards_multiset(order, players).add(
            player_cards_multiset(p2),
        ).count(e));
    }
    assert(roster_cards_multiset(order, players.insert(id.0, p2)) =~= roster_cards_multiset(
        order,
        players,
    ));
}

/// Taking an element out of a sequence by `swap_remove` (overwrite with
/// the last element, then drop the last) removes exactly that element from
/// the multiset.
pub proof fn lemma_swap_remove_multiset(s: Seq<CardId>, i: int)
    requires
        0 <= i < s.len(),
    ensures
        s.update(i, s.last()).drop_last().to_multiset() == s.to_multiset().remove(s[i]),
{
    broadcast use vstd::seq_lib::group_to_multiset_ensures, vstd::multiset::group_multiset_axioms;

    let s1 = s.update(i, s.last());
    assert(s1.to_multiset() == s.to_multiset().remove(s[i]).insert(s.last()));
    assert(s1.last() == s.last());
    assert(s1.drop_last() =~= s1.remove(s1.len() - 1));
    assert(s1.remove(s1.len() - 1).to_multiset() == s1.to_multiset().remove(s1.last()));
    assert(s.to_multiset().count(s[i]) > 0) by {
        assert(s.contains(s[i]));
    }
    assert(s1.drop_last().to_multiset() =~= s.to_multiset().remove(s[i]));
}

/// The index of the first occurrence of `id` in `order` (meaningful only
/// when `order` contains `id`).
pub open spec fn spec_position(order: Seq<ClientId>, id: ClientId) -> int
    decreases order.len(),
{
    if order.len() == 0 {
        0
    } else if order[0] == id {
        0
    } else {
        1 + spec_position(order.drop_first(), id)
    }
}

/// When `order` contains `id`, `spec_position` is the index of its first
/// occurrence.
pub proof fn lemma_position(order: Seq<ClientId>, id: ClientId)
    requires
        order.contains(id),
    ensures
        0 <= spec_position(order, id) < order.len(),
        order[spec_position(order, id)] == id,
        forall|j: int| 0 <= j < spec_position(order, id) ==> order[j] != id,
    decreases order.len(),
{
    if order[0] != id {
        let rest = order.drop_first();
        assert(rest.contains(id)) by {
            let i = choose|i: int| 0 <= i < order.len() && order[i] == id;
            assert(rest[i - 1] == order[i]);
        }
        lemma_position(rest, id);
        assert forall|j: int| 0 <= j < spec_position(order, id) implies order[j] != id by {
            if j > 0 {
                assert(rest[j - 1] == order[j]);
            }
        }
    }
}

/// The roster member whose turn comes after `id`: the next entry of the
/// turn order, wrapping around to the first entry after the last.
pub open spec fn spec_next_after(order: Seq<ClientId>, id: ClientId) -> ClientId {
    order[(spec_position(order, id) + 1) % (order.len() as int)]
}

/// Under a duplicate-free order, the first occurrence of the member at
/// index `j` is `j` itself.
pub proof fn lemma_position_of_index(order: Seq<ClientId>, j: int)
    requires
        order.no_duplicates(),
        0 <= j < order.len(),
    ensures
        spec_position(order, order[j]) == j,
{
    assert(order.contains(order[j]));
    lemma_position(order, order[j]);
    let p = spec_position(order, order[j]);
    if p != j {
        assert(order[p] == order[j]);
    }
}

/// `spec_next_after`, applied `k` times starting from `id`.
pub open spec fn spec_next_iter(order: Seq<ClientId>, id: ClientId, k: nat) -> ClientId
    decreases k,
{
    if k == 0 {
        id
    } else {
        spec_next_after(order, spec_next_iter(order, id, (k - 1) as nat))
    }
}

/// Turn rotation: starting from the member at index `i`, following the
/// turn order `k` times lands on the member at index `(i + k)` modulo the
/// roster size. So the rotation never leaves the roster, and repeated
/// application cycles through all members.
pub proof fn lemma_turn_rotation(order: Seq<ClientId>, i: int, k: nat)
    requires
        order.no_duplicates(),
        0 <= i < order.len(),
    ensures
        spec_next_iter(order, order[i], k) == order[(i + k) % (order.len() as int)],
    decreases k,
{
    let len = order.len() as int;
    if k == 0 {
        vstd::arithmetic::div_mod::lemma_small_mod(i as nat, len as nat);
    } else {
        lemma_turn_rotation(order, i, (k - 1) as nat);
        let j = (i + k - 1) % len;
        vstd::arithmetic::div_mod::lemma_mod_bound(i + k - 1, len);
        lemma_position_of_index(order, j);
        assert(spec_next_after(order, order[j]) == order[(j + 1) % len]);
        assert((j + 1) % len == (i + k) % len) by {
            if len == 1 {
                vstd::arithmetic::div_mod::lemma_mod_bound(j + 1, len);
                vstd::arithmetic::div_mod::lemma_mod_bound(i + k, len);
            } else {
                vstd::arithmetic::div_mod::lemma_small_mod(1nat, len as nat);
                vstd::arithmetic::div_mod::lemma_add_mod_noop(i + k - 1, 1, len);
            }
        }
    }
}

/// Following the turn order as many times as there are members returns to
/// the starting member, and no member is visited twice on the way: each
/// member plays exactly once per round.
pub proof fn lemma_turn_rotation_cycles(order: Seq<ClientId>, i: int)
    requires
        order.no_duplicates(),
        0 <= i < order.len(),
    ensures
        spec_next_iter(order, order[i], order.len()) == order[i],
        forall|k1: nat, k2: nat|
            k1 < k2 < order.len() ==> spec_next_iter(order, order[i], k1) != spec_next_iter(
                order,
                order[i],
                k2,
            ),
{
    let len = order.len() as int;
    lemma_turn_rotation(order, i, order.len());
    assert((i + len) % len == i) by {
        vstd::arithmetic::div_mod::lemma_mod_add_multiples_vanish(i, len);
        vstd::arithmetic::div_mod::lemma_small_mod(i as nat, len as nat);
    }
    assert forall|k1: nat, k2: nat| k1 < k2 < order.len() implies spec_next_iter(
        order,
        order[i],
        k1,
    ) != spec_next_iter(order, order[i], k2) by {
        lemma_turn_rotation(order, i, k1);
        lemma_turn_rotation(order, i, k2);
        let j1 = (i + k1) % len;
        let j2 = (i + k2) % len;
        vstd::arithmetic::div_mod::lemma_mod_bound(i + k1, len);
        vstd::arithmetic::div_mod::lemma_mod_bound(i + k2, len);
        if j1 == j2 {
            assert((i + k2) - (i + k1) == k2 - k1);
            vstd::arithmetic::div_mod::lemma_mod_equivalence(i + k2, i + k1, len);
            assert(((i + k2) - (i + k1)) % len == 0);
            vstd::arithmetic::div_mod::lemma_small_mod((k2 - k1) as nat, len as nat);
            assert(false);
        }
    }
}

/// A list of players in the lobby, ordered by their turns.
#[derive(Debug)]
pub struct OrderedLobbyPlayers {
    players_by_id: HashMap<usize, LobbyPlayer>,
    turns_order: Vec<ClientId>,
}

impl OrderedLobbyPlayers {
    /// The hand state of each roster member, keyed by raw client id.
    pub closed spec fn spec_players(self) -> Map<usize, LobbyPlayer> {
        self.players_by_id@
    }

    /// The turn order: each roster member's id, in the order they play.
    pub closed spec fn spec_order(self) -> Seq<ClientId> {
        self.turns_order@
    }

    /// The roster's invariant: the turn order is duplicate-free and holds
    /// exactly the keys of the player map.
    pub open spec fn wf(self) -> bool {
        &&& self.spec_order().no_duplicates()
        &&& forall|i: int| 0 <= i < self.spec_order().len() ==> self.spec_players().contains_key(
            (#[trigger] self.spec_order()[i]).0,
        )
        &&& forall|k: usize| self.spec_players().contains_key(k) ==> self.spec_order().contains(
            ClientId(k),
        )
    }

    /// Whether `id` is a roster member.
    pub open spec fn spec_contains(self, id: ClientId) -> bool {
        self.spec_players().contains_key(id.0)
    }

    pub fn new() -> (r: Self)
        ensures
            r.spec_players() == Map::<usize, LobbyPlayer>::empty(),
            r.spec_order() == Seq::<ClientId>::empty(),
            r.wf(),
    {
        Self { players_by_id: HashMap::new(), turns_order: Vec::new() }
    }

    pub fn len(&self) -> (n: usize)
        ensures
            n == self.spec_order().len(),
    {
        self.turns_order.len()
    }

    pub fn is_empty(&self) -> (r: bool)
        ensures
            r == (self.spec_order().len() == 0),
    {
        self.turns_order.len() == 0
    }

    /// The ids of the roster members, in turn order.
    pub fn player_ids(&self) -> (r: Vec<ClientId>)
        ensures
            r@ == self.spec_order(),
    {
        let mut r: Vec<ClientId> = Vec::new();
        let mut i: usize = 0;
        while i < self.turns_order.len()
            invariant
                i <= self.spec_order().len(),
                r@ == self.spec_order().take(i as int),
            decreases self.spec_order().len() - i,
        {
            r.push(self.turns_order[i]);
            proof {
                assert(r@ =~= self.spec_order().take(i + 1));
            }
            i = i + 1;
        }
        proof {
            assert(self.spec_order().take(self.spec_order().len() as int) =~= self.spec_order());
        }
        r
    }

    /// Each member with a copy of their hand state, in turn order.
    pub fn players(&self) -> (r: Vec<(ClientId, LobbyPlayer)>)
        requires
            self.wf(),
        ensures
            r@.len() == self.spec_order().len(),
            forall|i: int|
                0 <= i < r@.len() ==> ({
                    let entry = #[trigger] r@[i];
                    let p = self.spec_players()[self.spec_order()[i].0];
                    &&& entry.0 == self.spec_order()[i]
                    &&& entry.1.cards_in_hand@ == p.cards_in_hand@
                    &&& entry.1.three_up_cards@ == p.three_up_cards@
                    &&& entry.1.three_down_cards@ == p.three_down_cards@
                }),
    {
        let mut r: Vec<(ClientId, LobbyPlayer)> = Vec::new();
        let mut i: usize = 0;
        while i < self.turns_order.len()
            invariant
                self.wf(),
                i <= self.spec_order().len(),
                r@.len() == i,
                forall|j: int|
                    0 <= j < i ==> ({
                        let entry = #[trigger] r@[j];
                        let p = self.spec_players()[self.spec_order()[j].0];
                        &&& entry.0 == self.spec_order()[j]
                        &&& entry.1.cards_in_hand@ == p.cards_in_hand@
                        &&& entry.1.three_up_cards@ == p.three_up_cards@
                        &&& entry.1.three_down_cards@ == p.three_down_cards@
                    }),
            decreases self.spec_order().len() - i,
        {
            let id = self.turns_order[i];
            proof {
                assert(self.spec_players().contains_key((self.spec_order()[i as int]).0));
            }
            let player = match self.players_by_id.get(&id.0) {
                Some(player) => player.duplicate(),
                None => vstd::pervasive::unreached(),
            };
            r.push((id, player));
            i = i + 1;
        }
        r
    }

    /// Adds a player at the end of the turn order. If the id is already a
    /// roster member, nothing changes: re-inserting is not a supported
    /// operation, callers check membership first.
    pub fn insert(&mut self, player_id: ClientId, lobby_player: LobbyPlayer)
        requires
            old(self).wf(),
        ensures
            final(self).wf(),
            old(self).spec_contains(player_id) ==> final(self).spec_players() == old(
                self,
            ).spec_players() && final(self).spec_order() == old(self).spec_order(),
            !old(self).spec_contains(player_id) ==> {
                &&& final(self).spec_players() == old(self).spec_players().insert(
                    player_id.0,
                    lobby_player,
                )
                &&& final(self).spec_order() == old(self).spec_order().push(player_id)
            },
    {
        if self.players_by_id.contains_key(&player_id.0) {
            return;
        }
        self.players_by_id.insert(player_id.0, lobby_player);
        self.turns_order.push(player_id);
        proof {
            let order = self.spec_order();
            let old_order = old(self).spec_order();
            assert forall|i: int| 0 <= i < order.len() implies self.spec_players().contains_key(
                (#[trigger] order[i]).0,
            ) by {
                if i < order.len() - 1 {
                    assert(old_order[i] == order[i]);
                }
            }
            assert forall|k: usize| self.spec_players().contains_key(k) implies order.contains(
                ClientId(k),
            ) by {
                if k != player_id.0 {
                    assert(old(self).spec_players().contains_key(k));
                    assert(old_order.contains(ClientId(k)));
                    let j = choose|j: int| 0 <= j < old_order.len() && old_order[j] == ClientId(k);
                    assert(order[j] == ClientId(k));
                } else {
                    assert(order[order.len() - 1] == player_id);
                    assert(player_id == ClientId(k));
                }
            }
            assert(order.no_duplicates()) by {
                assert forall|i: int, j: int|
                    0 <= i < order.len() && 0 <= j < order.len() && i != j implies order[i]
                    != order[j] by {
                    if i < order.len() - 1 && j < order.len() - 1 {
                        assert(old_order[i] == order[i]);
                        assert(old_order[j] == order[j]);
                    } else if i == order.len() - 1 {
                        assert(old_order[j] == order[j]);
                        assert(old(self).spec_players().contains_key((order[j]).0));
                    } else {
                        assert(old_order[i] == order[i]);
                        assert(old(self).spec_players().contains_key((order[i]).0));
                    }
                }
            }
        }
    }

    /// Removes a player from both the map and the turn order, keeping the
    /// relative order of the remaining players. Returns the removed hand
    /// state, or None if the id was not a roster member.
    pub fn remove(&mut self, player_id: ClientId) -> (r: Option<LobbyPlayer>)
        requires
            old(self).wf(),
        ensures
            final(self).wf(),
            !old(self).spec_contains(player_id) ==> {
                &&& r is None
                &&& final(self).spec_players() == old(self).spec_players()
                &&& final(self).spec_order() == old(self).spec_order()
            },
            old(self).spec_contains(player_id) ==> {
                &&& r == Some(old(self).spec_players()[player_id.0])
                &&& final(self).spec_players() == old(self).spec_players().remove(player_id.0)
                &&& final(self).spec_order() == old(self).spec_order().remove(
                    spec_position(old(self).spec_order(), player_id),
                )
                &&& !final(self).spec_order().contains(player_id)
                &&& final(self).spec_order().len() == old(self).spec_order().len() - 1
            },
    {
        if !self.players_by_id.contains_key(&player_id.0) {
            return None;
        }
        let result = self.players_by_id.remove(&player_id.0);
        {
            proof {
                assert(old(self).spec_players().contains_key(player_id.0));
                assert(player_id == ClientId(player_id.0));
                assert(old(self).spec_order().contains(player_id));
                lemma_position(old(self).spec_order(), player_id);
            }
            // find the player's position in the turn order and remove it
            let ghost pos = spec_position(old(self).spec_order(), player_id);
            let n = self.turns_order.len();
            let mut i: usize = 0;
            loop
                invariant
                    0 <= i <= pos,
                    pos < n,
                    n == self.turns_order@.len(),
                    self.turns_order@ == old(self).spec_order(),
                    self.turns_order@[pos] == player_id,
                    forall|j: int| 0 <= j < pos ==> self.turns_order@[j] != player_id,
                ensures
                    i == pos,
                    pos < self.turns_order@.len(),
                    self.turns_order@ == old(self).spec_order(),
                decreases pos - i,
            {
                if self.turns_order[i].0 == player_id.0 {
                    proof {
                        assert(self.turns_order@[i as int] == player_id);
                    }
                    break;
                }
                proof {
                    assert(self.turns_order@[i as int] != player_id);
                    assert(i < pos);
                }
                i = i + 1;
            }
            self.turns_order.remove(i);
            proof {
                let order = self.spec_order();
                let old_order = old(self).spec_order();
                assert forall|i2: int| 0 <= i2 < order.len() implies self.spec_players()
                    .contains_key((#[trigger] order[i2]).0) by {
                    if i2 < pos {
                        assert(order[i2] == old_order[i2]);
                        assert(old_order[i2] != player_id);
                    } else {
                        assert(order[i2] == old_order[i2 + 1]);
                        assert(old_order[i2 + 1] != player_id);
                    }
                }
                assert forall|k: usize| self.spec_players().contains_key(k) implies order.contains(
                    ClientId(k),
                ) by {
                    let j = choose|j: int| 0 <= j < old_order.len() && old_order[j] == ClientId(k);
                    if j < pos {
                        assert(order[j] == ClientId(k));
                    } else {
                        assert(old_order[j] != player_id);
                        assert(order[j - 1] == ClientId(k));
                    }
                }
                assert(order.no_duplicates()) by {
                    assert forall|a: int, b: int|
                        0 <= a < order.len() && 0 <= b < order.len() && a != b implies order[a]
                        != order[b] by {
                        let a2: int = if a < pos { a } else { a + 1 };
                        let b2: int = if b < pos { b } else { b + 1 };
                        assert(order[a] == old_order[a2]);
                        assert(order[b] == old_order[b2]);
                    }
                }
                assert(!order.contains(player_id)) by {
                    if order.contains(player_id) {
                        let j = choose|j: int| 0 <= j < order.len() && order[j] == player_id;
                        let j2: int = if j < pos { j } else { j + 1 };
                        assert(order[j] == old_order[j2]);
                        assert(old_order[pos] == player_id);
                    }
                }
            }
        }
        result
    }

    /// The hand state of the given roster member.
    pub fn get_player(&self, player_id: ClientId) -> (r: Option<&LobbyPlayer>)
        ensures
            self.spec_contains(player_id) ==> (r matches Some(p) && *p
                == self.spec_players()[player_id.0]),
            !self.spec_contains(player_id) ==> r is None,
    {
        self.players_by_id.get(&player_id.0)
    }

    /// Replaces the hand state of a roster member, leaving the turn order
    /// unchanged.
    pub fn replace_player(&mut self, player_id: ClientId, lobby_player: LobbyPlayer)
        requires
            old(self).spec_contains(player_id),
        ensures
            final(self).spec_players() == old(self).spec_players().insert(
                player_id.0,
                lobby_player,
            ),
            final(self).spec_order() == old(self).spec_order(),
            old(self).wf() ==> final(self).wf(),
    {
        self.players_by_id.insert(player_id.0, lobby_player);
        proof {
            if old(self).wf() {
                let order = self.spec_order();
                assert forall|k: usize| self.spec_players().contains_key(k) implies order.contains(
                    ClientId(k),
                ) by {
                    assert(old(self).spec_players().contains_key(k));
                }
            }
        }
    }

    /// Finds the id of the player that will play after the player with the
    /// given id, according to the turns order, wrapping around to the first
    /// player after the last. The given player must be a roster member.
    pub fn find_next_turn_player_after(&self, player_id: ClientId) -> (r: ClientId)
        requires
            self.wf(),
            self.spec_order().contains(player_id),
        ensures
            r == spec_next_after(self.spec_order(), player_id),
            self.spec_order().contains(r),
    {
        proof {
            lemma_position(self.spec_order(), player_id);
        }
        let ghost pos = spec_position(self.spec_order(), player_id);
        let n = self.turns_order.len();
        let mut i: usize = 0;
        loop
            invariant
                0 <= i <= pos,
                pos < n,
                n == self.turns_order@.len(),
                self.turns_order@ == self.spec_order(),
                self.turns_order@[pos] == player_id,
                forall|j: int| 0 <= j < pos ==> self.turns_order@[j] != player_id,
            ensures
                i == pos,
                pos < self.turns_order@.len(),
                self.turns_order@ == self.spec_order(),
            decreases pos - i,
        {
            if self.turns_order[i].0 == player_id.0 {
                proof {
                    assert(self.turns_order@[i as int] == player_id);
                }
                break;
            }
            proof {
                assert(self.turns_order@[i as int] != player_id);
                assert(i < pos);
            }
            i = i + 1;
        }
        let next_index = (i + 1) % self.turns_order.len();
        let r = self.turns_order[next_index];
        proof {
            assert(self.spec_order()[next_index as int] == r);
        }
        r
    }

    /// Returns the player which is the first one to play.
    pub fn first_turn_player(&self) -> (r: ClientId)
        requires
            self.spec_order().len() > 0,
        ensures
            r == self.spec_order()[0],
    {
        self.turns_order[0]
    }

    /// Gives cards to a player, extending their hand. A no-op if the id is
    /// not a roster member: the player may have disconnected between turn
    /// resolution and card distribution.
    pub fn give_cards_to_player(&mut self, player_id: ClientId, cards: Vec<CardId>)
        ensures
            !old(self).spec_contains(player_id) ==> {
                &&& final(self).spec_players() == old(self).spec_players()
                &&& final(self).spec_order() == old(self).spec_order()
            },
            old(self).spec_contains(player_id) ==> {
                let oldp = old(self).spec_players()[player_id.0];
                let newp = final(self).spec_players()[player_id.0];
                &&& final(self).spec_players().contains_key(player_id.0)
                &&& newp.cards_in_hand@ == oldp.cards_in_hand@ + cards@
                &&& newp.three_up_cards == oldp.three_up_cards
                &&& newp.three_down_cards == oldp.three_down_cards
                &&& final(self).spec_players() == old(self).spec_players().insert(
                    player_id.0,
                    newp,
                )
                &&& final(self).spec_order() == old(self).spec_order()
            },
            old(self).wf() ==> final(self).wf(),
    {
        match self.players_by_id.remove(&player_id.0) {
            Some(player) => {
                let mut player = player;
                let mut cards = cards;
                player.cards_in_hand.append(&mut cards);
                self.players_by_id.insert(player_id.0, player);
                proof {
                    assert(self.spec_players() =~= old(self).spec_players().insert(
                        player_id.0,
                        self.spec_players()[player_id.0],
                    ));
                    if old(self).wf() {
                        let order = self.spec_order();
                        assert forall|k: usize| self.spec_players().contains_key(k)
                            implies order.contains(ClientId(k)) by {
                            assert(old(self).spec_players().contains_key(k));
                        }
                    }
                }
            },
            None => {
                proof {
                    assert(self.spec_players() =~= old(self).spec_players());
                }
            },
        }
    }

    /// Moves the hand card at `card_index` to the member's up-cards (the
    /// hand's last card takes its place, as `swap_remove` does). Returns
    /// the moved card.
    pub fn move_hand_card_to_up(&mut self, player_id: ClientId, card_index: usize) -> (card:
        CardId)
        requires
            old(self).spec_contains(player_id),
            card_index < old(self).spec_players()[player_id.0].cards_in_hand@.len(),
        ensures
            ({
                let oldp = old(self).spec_players()[player_id.0];
                let newp = final(self).spec_players()[player_id.0];
                &&& card == oldp.cards_in_hand@[card_index as int]
                &&& newp.cards_in_hand@ == oldp.cards_in_hand@.update(
                    card_index as int,
                    oldp.cards_in_hand@.last(),
                ).drop_last()
                &&& newp.three_up_cards@ == oldp.three_up_cards@.push(card)
                &&& newp.three_down_cards == oldp.three_down_cards
                &&& final(self).spec_players() == old(self).spec_players().insert(
                    player_id.0,
                    newp,
                )
                &&& final(self).spec_order() == old(self).spec_order()
                &&& player_cards_multiset(newp) == player_cards_multiset(oldp)
            }),
            old(self).wf() ==> final(self).wf(),
    {
        broadcast use vstd::seq_lib::group_to_multiset_ensures, vstd::multiset::group_multiset_axioms;

        let mut player = match self.players_by_id.remove(&player_id.0) {
            Some(p) => p,
            None => vstd::pervasive::unreached(),
        };
        let ghost oldp = old(self).spec_players()[player_id.0];
        let card = player.cards_in_hand.swap_remove(card_index);
        player.three_up_cards.push(card);
        proof {
            lemma_swap_remove_multiset(oldp.cards_in_hand@, card_index as int);
            assert(oldp.cards_in_hand@.to_multiset().count(card) > 0) by {
                assert(oldp.cards_in_hand@.contains(card));
            }
            assert(player_cards_multiset(player) =~= player_cards_multiset(oldp));
        }
        self.players_by_id.insert(player_id.0, player);
        proof {
            assert(final(self).spec_players() =~= old(self).spec_players().insert(
                player_id.0,
                final(self).spec_players()[player_id.0],
            ));
            if old(self).wf() {
                assert forall|k: usize| self.spec_players().contains_key(k)
                    implies self.spec_order().contains(ClientId(k)) by {
                    assert(old(self).spec_players().contains_key(k));
                }
            }
        }
        card
    }

    /// Moves the up-card at `card_index` back into the member's hand (the
    /// last up-card takes its place, as `swap_remove` does). Returns the
    /// moved card.
    pub fn move_up_card_to_hand(&mut self, player_id: ClientId, card_index: usize) -> (card:
        CardId)
        requires
            old(self).spec_contains(player_id),
            card_index < old(self).spec_players()[player_id.0].three_up_cards@.len(),
        ensures
            ({
                let oldp = old(self).spec_players()[player_id.0];
                let newp = final(self).spec_players()[player_id.0];
                &&& card == oldp.three_up_cards@[card_index as int]
                &&& newp.three_up_cards@ == oldp.three_up_cards@.update(
                    card_index as int,
                    oldp.three_up_cards@.last(),
                ).drop_last()
                &&& newp.cards_in_hand@ == oldp.cards_in_hand@.push(card)
                &&& newp.three_down_cards == oldp.three_down_cards
                &&& final(self).spec_players() == old(self).spec_players().insert(
                    player_id.0,
                    newp,
                )
                &&& final(self).spec_order() == old(self).spec_order()
                &&& player_cards_multiset(newp) == player_cards_multiset(oldp)
            }),
            old(self).wf() ==> final(self).wf(),
    {
        broadcast use vstd::seq_lib::group_to_multiset_ensures, vstd::multiset::group_multiset_axioms;

        let mut player = match self.players_by_id.remove(&player_id.0) {
            Some(p) => p,
            None => vstd::pervasive::unreached(),
        };
        let ghost oldp = old(self).spec_players()[player_id.0];
        let card = player.three_up_cards.swap_remove(card_index);
        player.cards_in_hand.push(card);
        proof {
            lemma_swap_remove_multiset(oldp.three_up_cards@, card_index as int);
            assert(oldp.three_up_cards@.to_multiset().count(card) > 0) by {
                assert(oldp.three_up_cards@.contains(card));
            }
            assert(player_cards_multiset(player) =~= player_cards_multiset(oldp));
        }
        self.players_by_id.insert(player_id.0, player);
        proof {
            assert(final(self).spec_players() =~= old(self).spec_players().insert(
                player_id.0,
                final(self).spec_players()[player_id.0],
            ));
            if old(self).wf() {
                assert forall|k: usize| self.spec_players().contains_key(k)
                    implies self.spec_order().contains(ClientId(k)) by {
                    assert(old(self).spec_players().contains_key(k));
                }
            }
        }
        card
    }

    /// Moves the last card of the member's hand onto their up-cards, as
    /// the timeout auto-completion does.
    pub fn move_last_hand_card_to_up(&mut self, player_id: ClientId) -> (card: CardId)
        requires
            old(self).spec_contains(player_id),
            old(self).spec_players()[player_id.0].cards_in_hand@.len() > 0,
        ensures
            ({
                let oldp = old(self).spec_players()[player_id.0];
                let newp = final(self).spec_players()[player_id.0];
                &&& card == oldp.cards_in_hand@.last()
                &&& newp.cards_in_hand@ == oldp.cards_in_hand@.drop_last()
                &&& newp.three_up_cards@ == oldp.three_up_cards@.push(card)
                &&& newp.three_down_cards == oldp.three_down_cards
                &&& final(self).spec_players() == old(self).spec_players().insert(
                    player_id.0,
                    newp,
                )
                &&& final(self).spec_order() == old(self).spec_order()
                &&& player_cards_multiset(newp) == player_cards_multiset(oldp)
            }),
            old(self).wf() ==> final(self).wf(),
    {
        broadcast use vstd::seq_lib::group_to_multiset_ensures, vstd::multiset::group_multiset_axioms;

        let mut player = match self.players_by_id.remove(&player_id.0) {
            Some(p) => p,
            None => vstd::pervasive::unreached(),
        };
        let ghost oldp = old(self).spec_players()[player_id.0];
        let card = match player.cards_in_hand.pop() {
            Some(c) => c,
            None => vstd::pervasive::unreached(),
        };
        player.three_up_cards.push(card);
        proof {
            let hand = oldp.cards_in_hand@;
            assert(hand.drop_last() =~= hand.remove(hand.len() - 1));
            assert(hand.remove(hand.len() - 1).to_multiset() == hand.to_multiset().remove(
                hand.last(),
            ));
            assert(hand.to_multiset().count(card) > 0) by {
                assert(hand.contains(hand.last()));
            }
            assert(player_cards_multiset(player) =~= player_cards_multiset(oldp));
        }
        self.players_by_id.insert(player_id.0, player);
        proof {
            assert(final(self).spec_players() =~= old(self).spec_players().insert(
                player_id.0,
                final(self).spec_players()[player_id.0],
            ));
            if old(self).wf() {
                assert forall|k: usize| self.spec_players().contains_key(k)
                    implies self.spec_order().contains(ClientId(k)) by {
                    assert(old(self).spec_players().contains_key(k));
                }
            }
        }
        card
    }
}

} // verus!
