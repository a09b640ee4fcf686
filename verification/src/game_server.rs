//! The process-wide game server state: client identities, the lobby
//! registry, and the routing of per-client operations to lobbies.

use vstd::prelude::*;
use std::collections::HashMap;

use crate::lobby::Lobby;
use crate::lobby::LobbyId;
use crate::lobby::MAX_PLAYERS_IN_LOBBY;
use crate::lobby::RemovePlayerFromLobbyResult;
use crate::messages::ClickedCardLocation;
use crate::messages::ServerMessage;
use crate::lobby::LobbyState;

verus! {

broadcast use vstd::std_specs::hash::group_hash_axioms;

/// Identifier of one connected client. Allocated monotonically, never
/// reused within a process lifetime; only equality matters to callers.
#[derive(Debug, Clone, Copy, PartialEq, Eq, Hash, Structural)]
pub struct ClientId(pub usize);

impl ClientId {
    pub fn from_raw(raw: usize) -> (r: Self)
        ensures
            r.0 == raw,
    {
        Self(raw)
    }

    /// Returns the raw id as a usize
    pub fn raw(&self) -> (r: usize)
        ensures
            r == self.0,
    {
        self.0
    }
}

/// What the server keeps about one connected client.
#[derive(Debug, Clone, PartialEq, Eq)]
pub struct ClientInfo {
    pub username: String,
}

/// Why joining a lobby was refused.
#[derive(Debug, Clone, Copy, PartialEq, Eq, Hash, Structural)]
pub enum JoinLobbyError {
    NoSuchLobby,
    LobbyFull,
    GameAlreadyStarted,
    AlreadyInALobby,
}

impl JoinLobbyError {
    /// A human-readable description of the error, for specifications.
    pub open spec fn spec_message(self) -> Seq<char> {
        match self {
            JoinLobbyError::NoSuchLobby => "no such lobby"@,
            JoinLobbyError::LobbyFull => "this lobby is full"@,
            JoinLobbyError::GameAlreadyStarted => "the game in this lobby has already started"@,
            JoinLobbyError::AlreadyInALobby => "you are already in a lobby"@,
        }
    }

    /// A human-readable description of the error.
    pub fn message(&self) -> (r: &'static str)
        ensures
            r@ == self.spec_message(),
    {
        match self {
            JoinLobbyError::NoSuchLobby => "no such lobby",
            JoinLobbyError::LobbyFull => "this lobby is full",
            JoinLobbyError::GameAlreadyStarted => "the game in this lobby has already started",
            JoinLobbyError::AlreadyInALobby => "you are already in a lobby",
        }
    }
}

/// Why starting the game was refused.
#[derive(Debug, Clone, Copy, PartialEq, Eq, Hash, Structural)]
pub enum StartGameError {
    NoSuchLobby,
    NotOwner,
    GameAlreadyStarted,
}

impl StartGameError {
    /// A human-readable description of the error, for specifications.
    pub open spec fn spec_message(self) -> Seq<char> {
        match self {
            StartGameError::NoSuchLobby => "no such lobby"@,
            StartGameError::NotOwner => "you are not the owner of this lobby"@,
            StartGameError::GameAlreadyStarted => "the game in this lobby has already started"@,
        }
    }

    /// A human-readable description of the error.
    pub fn message(&self) -> (r: &'static str)
        ensures
            r@ == self.spec_message(),
    {
        match self {
            StartGameError::NoSuchLobby => "no such lobby",
            StartGameError::NotOwner => "you are not the owner of this lobby",
            StartGameError::GameAlreadyStarted => "the game in this lobby has already started",
        }
    }
}

/// Why an in-lobby operation of a client was refused.
#[derive(Debug, Clone, Copy, PartialEq, Eq, Hash, Structural)]
pub enum GameServerError {
    NotInALobby,
    AlreadyInALobby,
    CantChangeUsernameInsideLobby,
    GameHasntStartedYet,
    NotYourTurn,
    NoSuchCard,
    CantTakeTrashBecauseSomeCardsCanBePlayed,
    NotOwner,
}

impl GameServerError {
    /// A human-readable description of the error, for specifications.
    pub open spec fn spec_message(self) -> Seq<char> {
        match self {
            GameServerError::NotInALobby => "you are not in a lobby"@,
            GameServerError::AlreadyInALobby => "you are already in a lobby"@,
            GameServerError::CantChangeUsernameInsideLobby => "can't change username inside a lobby"@,
            GameServerError::GameHasntStartedYet => "the game hasn't started yet"@,
            GameServerError::NotYourTurn => "it's not your turn"@,
            GameServerError::NoSuchCard => "no such card"@,
            GameServerError::CantTakeTrashBecauseSomeCardsCanBePlayed => "cards can be played, trash cannot be claimed"@,
            GameServerError::NotOwner => "you are not the owner of this lobby"@,
        }
    }

    /// A human-readable description of the error.
    pub fn message(&self) -> (r: &'static str)
        ensures
            r@ == self.spec_message(),
    {
        match self {
            GameServerError::NotInALobby => "you are not in a lobby",
            GameServerError::AlreadyInALobby => "you are already in a lobby",
            GameServerError::CantChangeUsernameInsideLobby => "can't change username inside a lobby",
            GameServerError::GameHasntStartedYet => "the game hasn't started yet",
            GameServerError::NotYourTurn => "it's not your turn",
            GameServerError::NoSuchCard => "no such card",
            GameServerError::CantTakeTrashBecauseSomeCardsCanBePlayed => "cards can be played, trash cannot be claimed",
            GameServerError::NotOwner => "you are not the owner of this lobby",
        }
    }
}

/// The information about a lobby player that is exposed to the clients.
#[derive(Debug, Clone, PartialEq, Eq)]
pub struct ExposedLobbyPlayerInfo {
    pub id: ClientId,
    pub username: String,
}

impl ExposedLobbyPlayerInfo {
    pub fn new(id: ClientId, username: String) -> (r: Self)
        ensures
            r.id == id,
            r.username == username,
    {
        Self { id, username }
    }
}

/// The information about a lobby that is exposed to the clients.
#[derive(Debug, Clone, PartialEq, Eq)]
pub struct ExposedLobbyInfo {
    pub name: String,
    pub id: LobbyId,
    pub players: Vec<ExposedLobbyPlayerInfo>,
    pub owner_id: ClientId,
}

/// The public view of a roster: each member that is a registered client,
/// in turn order, with their username; unregistered members are skipped.
pub open spec fn spec_exposed_players(
    order: Seq<ClientId>,
    clients: Map<usize, ClientInfo>,
) -> Seq<ExposedLobbyPlayerInfo>
    decreases order.len(),
{
    if order.len() == 0 {
        Seq::empty()
    } else {
        let rest = spec_exposed_players(order.drop_last(), clients);
        if clients.contains_key(order.last().0) {
            rest + seq![
                ExposedLobbyPlayerInfo {
                    id: order.last(),
                    username: clients[order.last().0].username,
                },
            ]
        } else {
            rest
        }
    }
}

/// The state of the game server.
/// Stores all information about lobbies, connected clients, and identifier
/// allocation. Constructed once at process start and handed by the caller
/// to every session; all mutations of one server state are serialized by
/// whoever owns it.
pub struct GameServerState {
    /// The id of the next player to connect to the game server.
    next_client_id: usize,
    /// The id of the next created lobby
    next_lobby_id: usize,
    /// The lobbies, keyed by raw lobby id.
    lobbies: HashMap<usize, Lobby>,
    /// The ids of the lobbies, in order of creation.
    lobby_ids: Vec<LobbyId>,
    /// Information about all clients connected to the game server.
    client_infos: HashMap<usize, ClientInfo>,
}

impl GameServerState {
    pub closed spec fn spec_next_client_id(self) -> int {
        self.next_client_id as int
    }

    pub closed spec fn spec_next_lobby_id(self) -> int {
        self.next_lobby_id as int
    }

    pub closed spec fn spec_lobbies(self) -> Map<usize, Lobby> {
        self.lobbies@
    }

    pub closed spec fn spec_lobby_ids(self) -> Seq<LobbyId> {
        self.lobby_ids@
    }

    pub closed spec fn spec_clients(self) -> Map<usize, ClientInfo> {
        self.client_infos@
    }

    /// The registry invariant: every registered lobby is well formed,
    /// never empty, keyed by its own id, and below the allocation counter;
    /// the creation-order list matches the registry exactly.
    pub open spec fn wf(self) -> bool {
        &&& forall|k: usize|
            self.spec_lobbies().contains_key(k) ==> {
                let l = #[trigger] self.spec_lobbies()[k];
                &&& l.wf()
                &&& l.spec_roster().spec_order().len() > 0
                &&& l.spec_id() == LobbyId(k)
                &&& k < self.spec_next_lobby_id()
            }
        &&& self.spec_lobby_ids().no_duplicates()
        &&& forall|i: int|
            0 <= i < self.spec_lobby_ids().len() ==> self.spec_lobbies().contains_key(
                (#[trigger] self.spec_lobby_ids()[i]).0,
            )
        &&& forall|k: usize|
            self.spec_lobbies().contains_key(k) ==> self.spec_lobby_ids().contains(LobbyId(k))
    }

    /// The registry invariant depends only on the lobby registry, the
    /// creation-order list, and the allocation counter.
    proof fn lemma_wf_congruence(a: GameServerState, b: GameServerState)
        requires
            a.wf(),
            b.spec_lobbies() == a.spec_lobbies(),
            b.spec_lobby_ids() == a.spec_lobby_ids(),
            b.spec_next_lobby_id() >= a.spec_next_lobby_id(),
        ensures
            b.wf(),
    {
        assert forall|k: usize| b.spec_lobbies().contains_key(k) implies ({
            let l = #[trigger] b.spec_lobbies()[k];
            &&& l.wf()
            &&& l.spec_roster().spec_order().len() > 0
            &&& l.spec_id() == LobbyId(k)
            &&& k < b.spec_next_lobby_id()
        }) by {
            assert(a.spec_lobbies().contains_key(k));
            assert(a.spec_lobbies()[k] == b.spec_lobbies()[k]);
        }
        assert forall|i: int| 0 <= i < b.spec_lobby_ids().len() implies b.spec_lobbies()
            .contains_key((#[trigger] b.spec_lobby_ids()[i]).0) by {
            assert(a.spec_lobby_ids()[i] == b.spec_lobby_ids()[i]);
        }
    }

    pub fn new() -> (r: Self)
        ensures
            r.wf(),
            r.spec_next_client_id() == 0,
            r.spec_next_lobby_id() == 0,
            r.spec_lobbies() == Map::<usize, Lobby>::empty(),
            r.spec_lobby_ids() == Seq::<LobbyId>::empty(),
            r.spec_clients() == Map::<usize, ClientInfo>::empty(),
    {
        GameServerState {
            next_client_id: 0,
            next_lobby_id: 0,
            lobbies: HashMap::new(),
            lobby_ids: Vec::new(),
            client_infos: HashMap::new(),
        }
    }

    /// Returns the id of the next player to connect to the game server.
    /// Ids count upward and are never reused within a process lifetime.
    pub fn next_client_id(&mut self) -> (r: ClientId)
        requires
            old(self).spec_next_client_id() < usize::MAX,
        ensures
            r == ClientId(old(self).spec_next_client_id() as usize),
            final(self).spec_next_client_id() == old(self).spec_next_client_id() + 1,
            final(self).spec_next_lobby_id() == old(self).spec_next_lobby_id(),
            final(self).spec_lobbies() == old(self).spec_lobbies(),
            final(self).spec_lobby_ids() == old(self).spec_lobby_ids(),
            final(self).spec_clients() == old(self).spec_clients(),
            old(self).wf() ==> final(self).wf(),
    {
        let id = self.next_client_id;
        self.next_client_id = self.next_client_id + 1;
        proof {
            if old(self).wf() {
                Self::lemma_wf_congruence(*old(self), *self);
            }
        }
        ClientId(id)
    }

    /// Adds a new client to the list of connected clients, with its
    /// initial username.
    pub fn add_client(&mut self, client_id: ClientId, username: String)
        ensures
            final(self).spec_clients() == old(self).spec_clients().insert(
                client_id.0,
                ClientInfo { username },
            ),
            final(self).spec_next_client_id() == old(self).spec_next_client_id(),
            final(self).spec_next_lobby_id() == old(self).spec_next_lobby_id(),
            final(self).spec_lobbies() == old(self).spec_lobbies(),
            final(self).spec_lobby_ids() == old(self).spec_lobby_ids(),
            old(self).wf() ==> final(self).wf(),
    {
        self.client_infos.insert(client_id.0, ClientInfo { username });
        proof {
            if old(self).wf() {
                Self::lemma_wf_congruence(*old(self), *self);
            }
        }
    }

    /// Removes the client from the list of connected clients.
    pub fn remove_client(&mut self, client_id: ClientId)
        ensures
            final(self).spec_clients() == old(self).spec_clients().remove(client_id.0),
            final(self).spec_next_client_id() == old(self).spec_next_client_id(),
            final(self).spec_next_lobby_id() == old(self).spec_next_lobby_id(),
            final(self).spec_lobbies() == old(self).spec_lobbies(),
            final(self).spec_lobby_ids() == old(self).spec_lobby_ids(),
            old(self).wf() ==> final(self).wf(),
    {
        let present = self.client_infos.contains_key(&client_id.0);
        self.client_infos.remove(&client_id.0);
        proof {
            if !present {
                assert(self.spec_clients() =~= old(self).spec_clients().remove(client_id.0));
            }
            if old(self).wf() {
                Self::lemma_wf_congruence(*old(self), *self);
            }
        }
    }

    /// Sets the username of the client with the given id. If there is no
    /// such client, nothing happens.
    pub fn set_username(&mut self, client_id: ClientId, new_username: String)
        ensures
            old(self).spec_clients().contains_key(client_id.0) ==> final(self).spec_clients()
                == old(self).spec_clients().insert(client_id.0, ClientInfo { username: new_username }),
            !old(self).spec_clients().contains_key(client_id.0) ==> final(self).spec_clients()
                == old(self).spec_clients(),
            final(self).spec_next_client_id() == old(self).spec_next_client_id(),
            final(self).spec_next_lobby_id() == old(self).spec_next_lobby_id(),
            final(self).spec_lobbies() == old(self).spec_lobbies(),
            final(self).spec_lobby_ids() == old(self).spec_lobby_ids(),
            old(self).wf() ==> final(self).wf(),
    {
        if self.client_infos.contains_key(&client_id.0) {
            self.client_infos.insert(client_id.0, ClientInfo { username: new_username });
        }
        proof {
            if old(self).wf() {
                Self::lemma_wf_congruence(*old(self), *self);
            }
        }
    }

    /// Creates a new lobby with the given name and owner, who becomes its
    /// sole member, and registers it. Returns the id of the new lobby.
    pub fn create_lobby(&mut self, name: String, owner_id: ClientId) -> (r: LobbyId)
        requires
            old(self).wf(),
            old(self).spec_next_lobby_id() < usize::MAX,
        ensures
            final(self).wf(),
            r == LobbyId(old(self).spec_next_lobby_id() as usize),
            !old(self).spec_lobbies().contains_key(r.0),
            final(self).spec_next_lobby_id() == old(self).spec_next_lobby_id() + 1,
            final(self).spec_next_client_id() == old(self).spec_next_client_id(),
            final(self).spec_clients() == old(self).spec_clients(),
            final(self).spec_lobby_ids() == old(self).spec_lobby_ids().push(r),
            ({
                let l = final(self).spec_lobbies()[r.0];
                &&& final(self).spec_lobbies() == old(self).spec_lobbies().insert(r.0, l)
                &&& l.spec_name() == name@
                &&& l.spec_owner() == owner_id
                &&& l.spec_state() is Waiting
                &&& l.spec_roster().spec_order() == seq![owner_id]
            }),
    {
        let raw = self.next_lobby_id;
        self.next_lobby_id = self.next_lobby_id + 1;
        let lobby_id = LobbyId::from_raw(raw);
        let lobby = Lobby::new(lobby_id, name, owner_id);
        self.lobbies.insert(raw, lobby);
        self.lobby_ids.push(lobby_id);
        proof {
            assert(!old(self).spec_lobbies().contains_key(raw)) by {
                if old(self).spec_lobbies().contains_key(raw) {
                    assert(raw < old(self).spec_next_lobby_id());
                }
            }
            let ids = self.spec_lobby_ids();
            assert forall|i: int| 0 <= i < ids.len() implies self.spec_lobbies().contains_key(
                (#[trigger] ids[i]).0,
            ) by {
                if i < ids.len() - 1 {
                    assert(ids[i] == old(self).spec_lobby_ids()[i]);
                }
            }
            assert forall|k: usize| self.spec_lobbies().contains_key(k) implies ids.contains(
                LobbyId(k),
            ) by {
                if k != raw {
                    assert(old(self).spec_lobbies().contains_key(k));
                    assert(old(self).spec_lobby_ids().contains(LobbyId(k)));
                    let j = choose|j: int|
                        0 <= j < old(self).spec_lobby_ids().len() && old(self).spec_lobby_ids()[j]
                            == LobbyId(k);
                    assert(ids[j] == LobbyId(k));
                } else {
                    assert(ids[ids.len() - 1] == LobbyId(k));
                }
            }
            assert(ids.no_duplicates()) by {
                assert forall|a: int, b: int|
                    0 <= a < ids.len() && 0 <= b < ids.len() && a != b implies ids[a] != ids[b] by {
                    if a < ids.len() - 1 && b < ids.len() - 1 {
                        assert(old(self).spec_lobby_ids()[a] == ids[a]);
                        assert(old(self).spec_lobby_ids()[b] == ids[b]);
                    } else if a == ids.len() - 1 {
                        assert(old(self).spec_lobby_ids()[b] == ids[b]);
                        assert(old(self).spec_lobbies().contains_key((ids[b]).0));
                    } else {
                        assert(old(self).spec_lobby_ids()[a] == ids[a]);
                        assert(old(self).spec_lobbies().contains_key((ids[a]).0));
                    }
                }
            }
        }
        lobby_id
    }

    /// Builds the exposed info of the given players, in order, skipping
    /// any id that is not a registered client.
    fn exposed_players(&self, ids: &Vec<ClientId>) -> (r: Vec<ExposedLobbyPlayerInfo>)
        ensures
            r@ == spec_exposed_players(ids@, self.spec_clients()),
    {
        let mut r: Vec<ExposedLobbyPlayerInfo> = Vec::new();
        let mut i: usize = 0;
        while i < ids.len()
            invariant
                i <= ids@.len(),
                r@ == spec_exposed_players(ids@.take(i as int), self.spec_clients()),
            decreases ids@.len() - i,
        {
            let id = ids[i];
            proof {
                assert(ids@.take(i + 1).drop_last() =~= ids@.take(i as int));
                assert(ids@.take(i + 1).last() == ids@[i as int]);
            }
            match self.client_infos.get(&id.0) {
                Some(info) => {
                    r.push(ExposedLobbyPlayerInfo { id, username: info.username.clone() });
                    proof {
                        assert(r@ =~= spec_exposed_players(
                            ids@.take(i + 1),
                            self.spec_clients(),
                        ));
                    }
                },
                None => {},
            }
            i = i + 1;
        }
        proof {
            assert(ids@.take(ids@.len() as int) =~= ids@);
        }
        r
    }

    /// Tries to add a player to a lobby.
    /// Fails if there is no lobby with the given id, if the lobby is full,
    /// if its game has already started, or if the player is already in it.
    /// Otherwise adds the player to the lobby and returns the roster as it
    /// was before the join, for the join confirmation, together with the
    /// player-joined announcement for the other members.
    pub fn join_lobby(&mut self, player_id: ClientId, lobby_id: LobbyId) -> (r: Result<
        (Vec<ExposedLobbyPlayerInfo>, Vec<ServerMessage>),
        JoinLobbyError,
    >)
        requires
            old(self).wf(),
            old(self).spec_clients().contains_key(player_id.0),
        ensures
            final(self).wf(),
            final(self).spec_clients() == old(self).spec_clients(),
            final(self).spec_lobby_ids() == old(self).spec_lobby_ids(),
            final(self).spec_next_client_id() == old(self).spec_next_client_id(),
            final(self).spec_next_lobby_id() == old(self).spec_next_lobby_id(),
            r is Err ==> final(self).spec_lobbies() == old(self).spec_lobbies(),
            !old(self).spec_lobbies().contains_key(lobby_id.0) ==> r == Err::<
                (Vec<ExposedLobbyPlayerInfo>, Vec<ServerMessage>),
                JoinLobbyError,
            >(JoinLobbyError::NoSuchLobby),
            old(self).spec_lobbies().contains_key(lobby_id.0) ==> ({
                let l0 = old(self).spec_lobbies()[lobby_id.0];
                &&& l0.spec_roster().spec_order().len() >= MAX_PLAYERS_IN_LOBBY ==> r == Err::<
                    (Vec<ExposedLobbyPlayerInfo>, Vec<ServerMessage>),
                    JoinLobbyError,
                >(JoinLobbyError::LobbyFull)
                &&& (l0.spec_roster().spec_order().len() < MAX_PLAYERS_IN_LOBBY && !(
                l0.spec_state() is Waiting)) ==> r == Err::<
                    (Vec<ExposedLobbyPlayerInfo>, Vec<ServerMessage>),
                    JoinLobbyError,
                >(JoinLobbyError::GameAlreadyStarted)
                &&& (l0.spec_roster().spec_order().len() < MAX_PLAYERS_IN_LOBBY && l0.spec_state()
                    is Waiting && l0.spec_roster().spec_contains(player_id)) ==> r == Err::<
                    (Vec<ExposedLobbyPlayerInfo>, Vec<ServerMessage>),
                    JoinLobbyError,
                >(JoinLobbyError::AlreadyInALobby)
                &&& (l0.spec_roster().spec_order().len() < MAX_PLAYERS_IN_LOBBY && l0.spec_state()
                    is Waiting && !l0.spec_roster().spec_contains(player_id)) ==> (r matches Ok(
                    ok,
                ) && ({
                    let l1 = final(self).spec_lobbies()[lobby_id.0];
                    &&& final(self).spec_lobbies() == old(self).spec_lobbies().insert(
                        lobby_id.0,
                        l1,
                    )
                    &&& l1.spec_roster().spec_order() == l0.spec_roster().spec_order().push(
                        player_id,
                    )
                    &&& l1.spec_state() is Waiting
                    &&& l1.spec_owner() == l0.spec_owner()
                    &&& l1.spec_name() == l0.spec_name()
                    &&& ok.0@ == spec_exposed_players(
                        l0.spec_roster().spec_order(),
                        old(self).spec_clients(),
                    )
                    &&& ok.1@ == seq![
                        ServerMessage::PlayerJoinedLobby(
                            ExposedLobbyPlayerInfo {
                                id: player_id,
                                username: old(self).spec_clients()[player_id.0].username,
                            },
                        ),
                    ]
                }))
            }),
    {
        let mut lobby = match self.lobbies.remove(&lobby_id.0) {
            Some(lobby) => lobby,
            None => {
                proof {
                    assert(self.spec_lobbies() =~= old(self).spec_lobbies());
                }
                return Err(JoinLobbyError::NoSuchLobby);
            },
        };
        if lobby.players_amount() >= MAX_PLAYERS_IN_LOBBY {
            self.lobbies.insert(lobby_id.0, lobby);
            proof {
                assert(self.spec_lobbies() =~= old(self).spec_lobbies());
                Self::lemma_wf_congruence(*old(self), *self);
            }
            return Err(JoinLobbyError::LobbyFull);
        }
        if !lobby.is_waiting() {
            self.lobbies.insert(lobby_id.0, lobby);
            proof {
                assert(self.spec_lobbies() =~= old(self).spec_lobbies());
                Self::lemma_wf_congruence(*old(self), *self);
            }
            return Err(JoinLobbyError::GameAlreadyStarted);
        }
        let already_in = match lobby.get_player(player_id) {
            Some(_) => true,
            None => false,
        };
        if already_in {
            self.lobbies.insert(lobby_id.0, lobby);
            proof {
                assert(self.spec_lobbies() =~= old(self).spec_lobbies());
                Self::lemma_wf_congruence(*old(self), *self);
            }
            return Err(JoinLobbyError::AlreadyInALobby);
        }

        // the roster as it was, for the join confirmation
        let ids = lobby.player_ids();
        let players = self.exposed_players(&ids);

        // the username of the joining player, for the announcement.
        // The player is a registered client: a session only joins lobbies
        // while its client record exists.
        let username = match self.client_infos.get(&player_id.0) {
            Some(info) => info.username.clone(),
            None => vstd::pervasive::unreached(),
        };

        lobby.add_player(player_id);
        self.lobbies.insert(lobby_id.0, lobby);

        let mut evs: Vec<ServerMessage> = Vec::new();
        evs.push(
            ServerMessage::PlayerJoinedLobby(ExposedLobbyPlayerInfo { id: player_id, username }),
        );
        proof {
            assert(self.spec_lobbies() =~= old(self).spec_lobbies().insert(
                lobby_id.0,
                self.spec_lobbies()[lobby_id.0],
            ));
            Self::lemma_wf_after_replace(*old(self), *self, lobby_id.0);
            assert(evs@ =~= seq![
                ServerMessage::PlayerJoinedLobby(
                    ExposedLobbyPlayerInfo {
                        id: player_id,
                        username: old(self).spec_clients()[player_id.0].username,
                    },
                ),
            ]);
        }
        Ok((players, evs))
    }

    /// The registry invariant still holds after one registered lobby is
    /// replaced by a well-formed, non-empty lobby with the same id.
    proof fn lemma_wf_after_replace(pre: GameServerState, post: GameServerState, k: usize)
        requires
            pre.wf(),
            pre.spec_lobbies().contains_key(k),
            post.spec_lobbies() == pre.spec_lobbies().insert(k, post.spec_lobbies()[k]),
            post.spec_lobby_ids() == pre.spec_lobby_ids(),
            post.spec_next_lobby_id() == pre.spec_next_lobby_id(),
            post.spec_lobbies().contains_key(k),
            post.spec_lobbies()[k].wf(),
            post.spec_lobbies()[k].spec_roster().spec_order().len() > 0,
            post.spec_lobbies()[k].spec_id() == LobbyId(k),
        ensures
            post.wf(),
    {
        assert forall|k2: usize| post.spec_lobbies().contains_key(k2) implies ({
            let l = #[trigger] post.spec_lobbies()[k2];
            &&& l.wf()
            &&& l.spec_roster().spec_order().len() > 0
            &&& l.spec_id() == LobbyId(k2)
            &&& k2 < post.spec_next_lobby_id()
        }) by {
            if k2 != k {
                assert(pre.spec_lobbies().contains_key(k2));
                assert(pre.spec_lobbies()[k2] == post.spec_lobbies()[k2]);
            }
        }
        assert forall|i: int| 0 <= i < post.spec_lobby_ids().len() implies post.spec_lobbies()
            .contains_key((#[trigger] post.spec_lobby_ids()[i]).0) by {
            assert(pre.spec_lobby_ids()[i] == post.spec_lobby_ids()[i]);
        }
        assert forall|k2: usize| post.spec_lobbies().contains_key(k2) implies post.spec_lobby_ids()
            .contains(LobbyId(k2)) by {
            if k2 != k {
                assert(pre.spec_lobbies().contains_key(k2));
            }
        }
    }

    /// The registry invariant still holds after a lobby is deregistered:
    /// removed from the registry and from the creation-order list.
    proof fn lemma_wf_after_deregister(pre: GameServerState, post: GameServerState, k: usize, pos: int)
        requires
            pre.wf(),
            pre.spec_lobbies().contains_key(k),
            0 <= pos < pre.spec_lobby_ids().len(),
            pre.spec_lobby_ids()[pos] == LobbyId(k),
            post.spec_lobbies() == pre.spec_lobbies().remove(k),
            post.spec_lobby_ids() == pre.spec_lobby_ids().remove(pos),
            post.spec_next_lobby_id() == pre.spec_next_lobby_id(),
        ensures
            post.wf(),
    {
        let ids0 = pre.spec_lobby_ids();
        let ids1 = post.spec_lobby_ids();
        assert forall|k2: usize| post.spec_lobbies().contains_key(k2) implies ({
            let l = #[trigger] post.spec_lobbies()[k2];
            &&& l.wf()
            &&& l.spec_roster().spec_order().len() > 0
            &&& l.spec_id() == LobbyId(k2)
            &&& k2 < post.spec_next_lobby_id()
        }) by {
            assert(pre.spec_lobbies().contains_key(k2));
            assert(pre.spec_lobbies()[k2] == post.spec_lobbies()[k2]);
        }
        assert(ids1.no_duplicates()) by {
            assert forall|a: int, b: int|
                0 <= a < ids1.len() && 0 <= b < ids1.len() && a != b implies ids1[a] != ids1[b] by {
                let a2: int = if a < pos { a } else { a + 1 };
                let b2: int = if b < pos { b } else { b + 1 };
                assert(ids1[a] == ids0[a2]);
                assert(ids1[b] == ids0[b2]);
            }
        }
        assert forall|i: int| 0 <= i < ids1.len() implies post.spec_lobbies().contains_key(
            (#[trigger] ids1[i]).0,
        ) by {
            let i2: int = if i < pos { i } else { i + 1 };
            assert(ids1[i] == ids0[i2]);
            assert(ids0[i2] != ids0[pos]);
            assert((ids1[i]).0 != k);
        }
        assert forall|k2: usize| post.spec_lobbies().contains_key(k2) implies ids1.contains(
            LobbyId(k2),
        ) by {
            assert(pre.spec_lobbies().contains_key(k2));
            assert(ids0.contains(LobbyId(k2)));
            let j = choose|j: int| 0 <= j < ids0.len() && ids0[j] == LobbyId(k2);
            assert(j != pos);
            if j < pos {
                assert(ids1[j] == LobbyId(k2));
            } else {
                assert(ids1[j - 1] == LobbyId(k2));
            }
        }
    }

    /// Removes a player from a lobby: if the player held the current
    /// turn, the turn passes on first; the departure is announced, with
    /// the new owner if ownership moved; and a lobby left with nobody in
    /// it is destroyed. Fails if the lobby does not exist or the player
    /// was not in it.
    pub fn remove_player_from_lobby(&mut self, player_id: ClientId, lobby_id: LobbyId) -> (r:
        Result<Vec<ServerMessage>, GameServerError>)
        requires
            old(self).wf(),
        ensures
            final(self).wf(),
            final(self).spec_clients() == old(self).spec_clients(),
            final(self).spec_next_client_id() == old(self).spec_next_client_id(),
            final(self).spec_next_lobby_id() == old(self).spec_next_lobby_id(),
            r is Err ==> final(self).spec_lobbies() == old(self).spec_lobbies()
                && final(self).spec_lobby_ids() == old(self).spec_lobby_ids(),
            !old(self).spec_lobbies().contains_key(lobby_id.0) ==> r == Err::<
                Vec<ServerMessage>,
                GameServerError,
            >(GameServerError::NotInALobby),
            old(self).spec_lobbies().contains_key(lobby_id.0) ==> ({
                let l0 = old(self).spec_lobbies()[lobby_id.0];
                let turn_evs = l0.spec_removal_turn_events(player_id);
                &&& !l0.spec_roster().spec_contains(player_id) ==> r == Err::<
                    Vec<ServerMessage>,
                    GameServerError,
                >(GameServerError::NotInALobby)
                &&& (l0.spec_roster().spec_contains(player_id) && l0.spec_roster().spec_order().len()
                    == 1) ==> (r matches Ok(evs) && ({
                    &&& final(self).spec_lobbies() == old(self).spec_lobbies().remove(lobby_id.0)
                    &&& !final(self).spec_lobby_ids().contains(lobby_id)
                    &&& evs@ == turn_evs
                }))
                &&& (l0.spec_roster().spec_contains(player_id) && l0.spec_roster().spec_order().len()
                    > 1) ==> (r matches Ok(evs) && ({
                    let l1 = final(self).spec_lobbies()[lobby_id.0];
                    &&& final(self).spec_lobbies() == old(self).spec_lobbies().insert(
                        lobby_id.0,
                        l1,
                    )
                    &&& final(self).spec_lobby_ids() == old(self).spec_lobby_ids()
                    &&& l1.spec_roster().spec_order().len() == l0.spec_roster().spec_order().len()
                        - 1
                    &&& !l1.spec_roster().spec_contains(player_id)
                    &&& player_id == l0.spec_owner() ==> (l1.spec_owner() == l1.spec_roster()
                        .spec_order()[0] && evs@ == turn_evs + seq![
                        ServerMessage::OwnerLeftLobby { new_owner_id: l1.spec_owner() },
                    ])
                    &&& player_id != l0.spec_owner() ==> (l1.spec_owner() == l0.spec_owner()
                        && evs@ == turn_evs + seq![ServerMessage::PlayerLeftLobby(player_id)])
                }))
            }),
    {
        let mut lobby = match self.lobbies.remove(&lobby_id.0) {
            Some(lobby) => lobby,
            None => {
                proof {
                    assert(self.spec_lobbies() =~= old(self).spec_lobbies());
                }
                return Err(GameServerError::NotInALobby);
            },
        };
        proof {
            assert(old(self).spec_lobbies().contains_key(lobby_id.0));
            assert(lobby == old(self).spec_lobbies()[lobby_id.0]);
            assert(old(self).spec_lobbies()[lobby_id.0].wf());
        }
        let (result, mut evs) = lobby.remove_player(player_id);
        match result {
            RemovePlayerFromLobbyResult::PlayerWasntInLobby => {
                self.lobbies.insert(lobby_id.0, lobby);
                proof {
                    assert(self.spec_lobbies() =~= old(self).spec_lobbies());
                    Self::lemma_wf_congruence(*old(self), *self);
                }
                Err(GameServerError::NotInALobby)
            },
            RemovePlayerFromLobbyResult::Removed => {
                self.lobbies.insert(lobby_id.0, lobby);
                evs.push(ServerMessage::PlayerLeftLobby(player_id));
                proof {
                    assert(self.spec_lobbies() =~= old(self).spec_lobbies().insert(
                        lobby_id.0,
                        self.spec_lobbies()[lobby_id.0],
                    ));
                    Self::lemma_wf_after_replace(*old(self), *self, lobby_id.0);
                }
                Ok(evs)
            },
            RemovePlayerFromLobbyResult::NewOwner(_) => {
                self.lobbies.insert(lobby_id.0, lobby);
                evs.push(
                    ServerMessage::OwnerLeftLobby {
                        new_owner_id: match self.lobbies.get(&lobby_id.0) {
                            Some(l) => l.owner_id(),
                            None => vstd::pervasive::unreached(),
                        },
                    },
                );
                proof {
                    assert(self.spec_lobbies() =~= old(self).spec_lobbies().insert(
                        lobby_id.0,
                        self.spec_lobbies()[lobby_id.0],
                    ));
                    Self::lemma_wf_after_replace(*old(self), *self, lobby_id.0);
                }
                Ok(evs)
            },
            RemovePlayerFromLobbyResult::LobbyNowEmpty => {
                // the lobby is now empty: deregister and drop it
                let ghost mid = *self;
                let ghost ids0 = self.spec_lobby_ids();
                proof {
                    assert(old(self).spec_lobby_ids().contains(lobby_id)) by {
                        assert(old(self).spec_lobbies().contains_key(lobby_id.0));
                        assert(old(self).spec_lobby_ids().contains(LobbyId(lobby_id.0)));
                        assert(LobbyId(lobby_id.0) == lobby_id);
                    }
                }
                let n = self.lobby_ids.len();
                let mut i: usize = 0;
                loop
                    invariant
                        n == ids0.len(),
                        ids0 == old(self).spec_lobby_ids(),
                        self.spec_lobby_ids() == ids0,
                        ids0.contains(lobby_id),
                        0 <= i <= n,
                        forall|j: int| 0 <= j < i ==> ids0[j] != lobby_id,
                        *self == mid,
                    ensures
                        0 <= i < n,
                        ids0[i as int] == lobby_id,
                        forall|j: int| 0 <= j < i ==> ids0[j] != lobby_id,
                        *self == mid,
                    decreases n - i,
                {
                    proof {
                        if i >= n {
                            let w = choose|w: int| 0 <= w < ids0.len() && ids0[w] == lobby_id;
                            assert(ids0[w] != lobby_id);
                        }
                    }
                    if self.lobby_ids[i].0 == lobby_id.0 {
                        proof {
                            assert(ids0[i as int] == lobby_id);
                        }
                        break;
                    }
                    proof {
                        assert(ids0[i as int] != lobby_id);
                    }
                    i = i + 1;
                }
                self.lobby_ids.remove(i);
                proof {
                    Self::lemma_wf_after_deregister(*old(self), *self, lobby_id.0, i as int);
                    assert(!self.spec_lobby_ids().contains(lobby_id)) by {
                        if self.spec_lobby_ids().contains(lobby_id) {
                            let j = choose|j: int|
                                0 <= j < self.spec_lobby_ids().len() && self.spec_lobby_ids()[j]
                                    == lobby_id;
                            let j2: int = if j < i { j } else { j + 1 };
                            assert(ids0[j2] == lobby_id);
                            assert(ids0.no_duplicates());
                        }
                    }
                }
                Ok(evs)
            },
        }
    }

    /// Attempts to start the game in the given lobby, given the id of the
    /// client who requested to start the game and the id of the lobby.
    /// Only the owner may start it, and only while the lobby is waiting.
    pub fn start_game(&mut self, requesting_client_id: ClientId, lobby_id: LobbyId) -> (r: Result<
        (),
        StartGameError,
    >)
        requires
            old(self).wf(),
        ensures
            final(self).wf(),
            final(self).spec_clients() == old(self).spec_clients(),
            final(self).spec_lobby_ids() == old(self).spec_lobby_ids(),
            final(self).spec_next_client_id() == old(self).spec_next_client_id(),
            final(self).spec_next_lobby_id() == old(self).spec_next_lobby_id(),
            r is Err ==> final(self).spec_lobbies() == old(self).spec_lobbies(),
            !old(self).spec_lobbies().contains_key(lobby_id.0) ==> r == Err::<(), StartGameError>(
                StartGameError::NoSuchLobby,
            ),
            old(self).spec_lobbies().contains_key(lobby_id.0) ==> ({
                let l0 = old(self).spec_lobbies()[lobby_id.0];
                &&& l0.spec_owner() != requesting_client_id ==> r == Err::<(), StartGameError>(
                    StartGameError::NotOwner,
                )
                &&& (l0.spec_owner() == requesting_client_id && !(l0.spec_state() is Waiting)) ==> r
                    == Err::<(), StartGameError>(StartGameError::GameAlreadyStarted)
                &&& (l0.spec_owner() == requesting_client_id && l0.spec_state() is Waiting) ==> (
                r is Ok && ({
                    let l1 = final(self).spec_lobbies()[lobby_id.0];
                    &&& final(self).spec_lobbies() == old(self).spec_lobbies().insert(
                        lobby_id.0,
                        l1,
                    )
                    &&& l1.spec_state() is Choosing3Up
                    &&& l1.spec_roster().spec_order() == l0.spec_roster().spec_order()
                    &&& forall|i: int|
                        0 <= i < l1.spec_roster().spec_order().len() ==> ({
                            let p = l1.spec_roster().spec_players()[(#[trigger] l1.spec_roster().spec_order()[i]).0];
                            &&& p.cards_in_hand@.len() == crate::lobby::INITIAL_CARDS_IN_HAND_AMOUNT
                            &&& p.three_up_cards@.len() == 0
                            &&& p.three_down_cards@.len() == crate::lobby::THREE_DOWN_CARDS_AMOUNT
                        })
                }))
            }),
    {
        let mut lobby = match self.lobbies.remove(&lobby_id.0) {
            Some(lobby) => lobby,
            None => {
                proof {
                    assert(self.spec_lobbies() =~= old(self).spec_lobbies());
                }
                return Err(StartGameError::NoSuchLobby);
            },
        };
        if lobby.owner_id().0 != requesting_client_id.0 {
            self.lobbies.insert(lobby_id.0, lobby);
            proof {
                assert(self.spec_lobbies() =~= old(self).spec_lobbies());
                Self::lemma_wf_congruence(*old(self), *self);
            }
            return Err(StartGameError::NotOwner);
        }
        if !lobby.is_waiting() {
            self.lobbies.insert(lobby_id.0, lobby);
            proof {
                assert(self.spec_lobbies() =~= old(self).spec_lobbies());
                Self::lemma_wf_congruence(*old(self), *self);
            }
            return Err(StartGameError::GameAlreadyStarted);
        }
        lobby.start_game();
        self.lobbies.insert(lobby_id.0, lobby);
        proof {
            assert(self.spec_lobbies() =~= old(self).spec_lobbies().insert(
                lobby_id.0,
                self.spec_lobbies()[lobby_id.0],
            ));
            Self::lemma_wf_after_replace(*old(self), *self, lobby_id.0);
        }
        Ok(())
    }

    /// Handles a card click from a client in the given lobby: the click is
    /// refused while the lobby waits, moves cards between hand and
    /// up-cards during selection, and claims the trash in active play,
    /// exactly as the lobby itself decides. Fails if the lobby does not
    /// exist. During active play callers may only pass the trash location:
    /// playing a card is not part of this core.
    pub fn click_card(
        &mut self,
        player_id: ClientId,
        lobby_id: LobbyId,
        clicked_card_location: ClickedCardLocation,
    ) -> (r: Result<Vec<ServerMessage>, GameServerError>)
        requires
            old(self).wf(),
            old(self).spec_lobbies().contains_key(lobby_id.0) ==> ((
            old(self).spec_lobbies()[lobby_id.0].spec_state() is GameStarted)
                ==> clicked_card_location is Trash),
        ensures
            final(self).wf(),
            final(self).spec_clients() == old(self).spec_clients(),
            final(self).spec_lobby_ids() == old(self).spec_lobby_ids(),
            final(self).spec_next_client_id() == old(self).spec_next_client_id(),
            final(self).spec_next_lobby_id() == old(self).spec_next_lobby_id(),
            r is Err ==> final(self).spec_lobbies() == old(self).spec_lobbies(),
            !old(self).spec_lobbies().contains_key(lobby_id.0) ==> r == Err::<
                Vec<ServerMessage>,
                GameServerError,
            >(GameServerError::NotInALobby),
            old(self).spec_lobbies().contains_key(lobby_id.0) ==> ({
                let l0 = old(self).spec_lobbies()[lobby_id.0];
                let l1 = final(self).spec_lobbies()[lobby_id.0];
                &&& final(self).spec_lobbies() == old(self).spec_lobbies().insert(lobby_id.0, l1)
                &&& l1.spec_roster().spec_order() == l0.spec_roster().spec_order()
                &&& l0.spec_state() is Waiting ==> r == Err::<Vec<ServerMessage>, GameServerError>(
                    GameServerError::GameHasntStartedYet,
                )
                &&& l0.spec_state() is Choosing3Up ==> ({
                    let oldp = l0.spec_roster().spec_players()[player_id.0];
                    &&& !l0.spec_roster().spec_contains(player_id) ==> r == Err::<
                        Vec<ServerMessage>,
                        GameServerError,
                    >(GameServerError::NotInALobby)
                    &&& l0.spec_roster().spec_contains(player_id)
                        ==> match clicked_card_location {
                        ClickedCardLocation::FromCardsInHand { card_index } => {
                            &&& card_index >= oldp.cards_in_hand@.len() ==> r == Err::<
                                Vec<ServerMessage>,
                                GameServerError,
                            >(GameServerError::NoSuchCard)
                            &&& card_index < oldp.cards_in_hand@.len() ==> (r matches Ok(evs)
                                && ({
                                let newp = l1.spec_roster().spec_players()[player_id.0];
                                &&& newp.cards_in_hand@ == oldp.cards_in_hand@.update(
                                    card_index as int,
                                    oldp.cards_in_hand@.last(),
                                ).drop_last()
                                &&& newp.three_up_cards@ == oldp.three_up_cards@.push(
                                    oldp.cards_in_hand@[card_index as int],
                                )
                                &&& evs@ == seq![
                                    ServerMessage::MovePlayerCardFromHandToThreeUp {
                                        hand_card_index: card_index,
                                        player_id,
                                    },
                                ]
                            }))
                        },
                        ClickedCardLocation::FromThreeUpCards { card_index } => {
                            &&& card_index >= oldp.three_up_cards@.len() ==> r == Err::<
                                Vec<ServerMessage>,
                                GameServerError,
                            >(GameServerError::NoSuchCard)
                            &&& card_index < oldp.three_up_cards@.len() ==> (r matches Ok(evs)
                                && ({
                                let newp = l1.spec_roster().spec_players()[player_id.0];
                                &&& newp.three_up_cards@ == oldp.three_up_cards@.update(
                                    card_index as int,
                                    oldp.three_up_cards@.last(),
                                ).drop_last()
                                &&& newp.cards_in_hand@ == oldp.cards_in_hand@.push(
                                    oldp.three_up_cards@[card_index as int],
                                )
                                &&& evs@ == seq![
                                    ServerMessage::MovePlayerCardFromThreeUpToHand {
                                        up_three_card_index: card_index,
                                        player_id,
                                    },
                                ]
                            }))
                        },
                        _ => r matches Ok(evs) && evs@.len() == 0,
                    }
                })
                &&& l0.spec_state() matches LobbyState::GameStarted(g0) ==> ({
                    let cur = g0.current_turn.spec_player_id();
                    let eff = crate::deck::spec_effective_trash_rank(g0.trash@);
                    let oldp = l0.spec_roster().spec_players()[cur.0];
                    &&& player_id != cur ==> r == Err::<Vec<ServerMessage>, GameServerError>(
                        GameServerError::NotYourTurn,
                    )
                    &&& (player_id == cur && l0.spec_roster().spec_order().len() > 0) ==> ({
                        &&& crate::lobby_player::spec_placeable_cards(oldp, eff).len() > 0 ==> r
                            == Err::<Vec<ServerMessage>, GameServerError>(
                            GameServerError::CantTakeTrashBecauseSomeCardsCanBePlayed,
                        )
                        &&& crate::lobby_player::spec_placeable_cards(oldp, eff).len() == 0 ==> (
                        r matches Ok(evs) && ({
                            let next = crate::ordered_lobby_players::spec_next_after(
                                l0.spec_roster().spec_order(),
                                cur,
                            );
                            let newp = l1.spec_roster().spec_players()[cur.0];
                            &&& (l1.spec_state() matches LobbyState::GameStarted(g1) && ({
                                &&& g1.deck@ == g0.deck@
                                &&& g1.trash@.len() == 0
                                &&& g1.current_turn.spec_player_id() == next
                            }))
                            &&& newp.cards_in_hand@ == oldp.cards_in_hand@ + g0.trash@
                            &&& evs@ == seq![
                                ServerMessage::GiveTrash(cur),
                                ServerMessage::Turn(next),
                            ]
                        }))
                    })
                })
            }),
    {
        let mut lobby = match self.lobbies.remove(&lobby_id.0) {
            Some(lobby) => lobby,
            None => {
                proof {
                    assert(self.spec_lobbies() =~= old(self).spec_lobbies());
                }
                return Err(GameServerError::NotInALobby);
            },
        };
        proof {
            assert(old(self).spec_lobbies().contains_key(lobby_id.0));
            assert(lobby == old(self).spec_lobbies()[lobby_id.0]);
            assert(old(self).spec_lobbies()[lobby_id.0].wf());
        }
        let result = lobby.click_card(player_id, clicked_card_location);
        self.lobbies.insert(lobby_id.0, lobby);
        proof {
            assert(self.spec_lobbies() =~= old(self).spec_lobbies().insert(
                lobby_id.0,
                self.spec_lobbies()[lobby_id.0],
            ));
            Self::lemma_wf_after_replace(*old(self), *self, lobby_id.0);
        }
        result
    }

    /// A turn timer of the given lobby elapsed: forwards the timeout to
    /// the lobby, which arbitrates against cancellation. An unknown lobby
    /// (for instance one destroyed since the timer was armed) does
    /// nothing.
    pub fn turn_timeout(&mut self, lobby_id: LobbyId, timer_handle: usize) -> (evs: Vec<
        ServerMessage,
    >)
        requires
            old(self).wf(),
        ensures
            final(self).wf(),
            final(self).spec_clients() == old(self).spec_clients(),
            final(self).spec_lobby_ids() == old(self).spec_lobby_ids(),
            final(self).spec_next_client_id() == old(self).spec_next_client_id(),
            final(self).spec_next_lobby_id() == old(self).spec_next_lobby_id(),
            !old(self).spec_lobbies().contains_key(lobby_id.0) ==> (final(self).spec_lobbies()
                == old(self).spec_lobbies() && evs@.len() == 0),
            old(self).spec_lobbies().contains_key(lobby_id.0) ==> ({
                let l0 = old(self).spec_lobbies()[lobby_id.0];
                let l1 = final(self).spec_lobbies()[lobby_id.0];
                &&& final(self).spec_lobbies() == old(self).spec_lobbies().insert(lobby_id.0, l1)
                &&& l1.spec_roster().spec_order() == l0.spec_roster().spec_order()
                &&& !(l0.spec_state() is GameStarted) ==> (l1 == l0 && evs@.len() == 0)
                &&& l0.spec_state() matches LobbyState::GameStarted(g0) ==> ({
                    let cur = g0.current_turn.spec_player_id();
                    let next = crate::ordered_lobby_players::spec_next_after(
                        l0.spec_roster().spec_order(),
                        cur,
                    );
                    let oldp = l0.spec_roster().spec_players()[cur.0];
                    let newp = l1.spec_roster().spec_players()[cur.0];
                    &&& g0.current_turn.spec_timer_handle() != timer_handle ==> (l1 == l0
                        && evs@.len() == 0)
                    &&& g0.current_turn.spec_timer_handle() == timer_handle ==> ({
                        &&& (l1.spec_state() matches LobbyState::GameStarted(g1) && ({
                            &&& g1.deck@ == g0.deck@
                            &&& g1.trash@.len() == 0
                            &&& g1.current_turn.spec_player_id() == next
                        }))
                        &&& newp.cards_in_hand@ == oldp.cards_in_hand@ + g0.trash@
                        &&& evs@ == seq![
                            ServerMessage::GiveTrash(cur),
                            ServerMessage::Turn(next),
                        ]
                    })
                })
            }),
    {
        let mut lobby = match self.lobbies.remove(&lobby_id.0) {
            Some(lobby) => lobby,
            None => {
                proof {
                    assert(self.spec_lobbies() =~= old(self).spec_lobbies());
                }
                return Vec::new();
            },
        };
        proof {
            assert(old(self).spec_lobbies().contains_key(lobby_id.0));
            assert(lobby == old(self).spec_lobbies()[lobby_id.0]);
            assert(old(self).spec_lobbies()[lobby_id.0].wf());
        }
        let evs = lobby.turn_timeout(timer_handle);
        self.lobbies.insert(lobby_id.0, lobby);
        proof {
            assert(self.spec_lobbies() =~= old(self).spec_lobbies().insert(
                lobby_id.0,
                self.spec_lobbies()[lobby_id.0],
            ));
            Self::lemma_wf_after_replace(*old(self), *self, lobby_id.0);
        }
        evs
    }

    /// The selection timer of the given lobby elapsed: forwards the
    /// timeout to the lobby, which arbitrates against cancellation and,
    /// if the timer is still live, completes the selection phase and
    /// starts the first turn. An unknown lobby does nothing.
    pub fn choose_3_up_timeout(&mut self, lobby_id: LobbyId, timer_handle: usize) -> (evs: Vec<
        ServerMessage,
    >)
        requires
            old(self).wf(),
        ensures
            final(self).wf(),
            final(self).spec_clients() == old(self).spec_clients(),
            final(self).spec_lobby_ids() == old(self).spec_lobby_ids(),
            final(self).spec_next_client_id() == old(self).spec_next_client_id(),
            final(self).spec_next_lobby_id() == old(self).spec_next_lobby_id(),
            !old(self).spec_lobbies().contains_key(lobby_id.0) ==> (final(self).spec_lobbies()
                == old(self).spec_lobbies() && evs@.len() == 0),
            old(self).spec_lobbies().contains_key(lobby_id.0) ==> ({
                let l0 = old(self).spec_lobbies()[lobby_id.0];
                let l1 = final(self).spec_lobbies()[lobby_id.0];
                let order = l0.spec_roster().spec_order();
                let players0 = l0.spec_roster().spec_players();
                &&& final(self).spec_lobbies() == old(self).spec_lobbies().insert(lobby_id.0, l1)
                &&& l1.spec_roster().spec_order() == order
                &&& !(l0.spec_state() is Choosing3Up) ==> (l1 == l0 && evs@.len() == 0)
                &&& l0.spec_state() matches LobbyState::Choosing3Up(c0) ==> ({
                    &&& c0.timer_handle != timer_handle ==> (l1 == l0 && evs@.len() == 0)
                    &&& c0.timer_handle == timer_handle ==> ({
                        &&& (l1.spec_state() matches LobbyState::GameStarted(g1) && ({
                            &&& g1.deck@ == c0.deck@
                            &&& g1.trash@.len() == 0
                            &&& g1.current_turn.spec_player_id() == order[0]
                        }))
                        &&& forall|i: int|
                            0 <= i < order.len() ==> ({
                                let oldp = players0[(#[trigger] order[i]).0];
                                let newp = l1.spec_roster().spec_players()[order[i].0];
                                &&& oldp.three_up_cards@.len()
                                    >= crate::lobby::THREE_UP_CARDS_AMOUNT ==> newp == oldp
                                &&& oldp.three_up_cards@.len()
                                    < crate::lobby::THREE_UP_CARDS_AMOUNT ==> ({
                                    &&& newp.three_up_cards@.len()
                                        == crate::lobby::THREE_UP_CARDS_AMOUNT
                                    &&& newp.three_up_cards@.take(
                                        oldp.three_up_cards@.len() as int,
                                    ) == oldp.three_up_cards@
                                    &&& newp.three_down_cards == oldp.three_down_cards
                                })
                            })
                        &&& evs@.len() == 2
                        &&& (evs@[0] matches ServerMessage::TheeUpSelectionDone {
                            three_up_cards_of_modified_players: m,
                        } && ({
                            let changed = order.filter(
                                |id: ClientId| players0[id.0].three_up_cards@.len()
                                    < crate::lobby::THREE_UP_CARDS_AMOUNT,
                            );
                            &&& m@.len() == changed.len()
                            &&& forall|k: int|
                                0 <= k < m@.len() ==> ((#[trigger] m@[k]).0 == changed[k]
                                    && m@[k].1@ == l1.spec_roster().spec_players()[changed[k].0]
                                    .three_up_cards@)
                        }))
                        &&& evs@[1] == ServerMessage::Turn(order[0])
                    })
                })
            }),
    {
        let mut lobby = match self.lobbies.remove(&lobby_id.0) {
            Some(lobby) => lobby,
            None => {
                proof {
                    assert(self.spec_lobbies() =~= old(self).spec_lobbies());
                }
                return Vec::new();
            },
        };
        proof {
            assert(old(self).spec_lobbies().contains_key(lobby_id.0));
            assert(lobby == old(self).spec_lobbies()[lobby_id.0]);
            assert(old(self).spec_lobbies()[lobby_id.0].wf());
        }
        let evs = lobby.choose_3_up_timeout(timer_handle);
        self.lobbies.insert(lobby_id.0, lobby);
        proof {
            assert(self.spec_lobbies() =~= old(self).spec_lobbies().insert(
                lobby_id.0,
                self.spec_lobbies()[lobby_id.0],
            ));
            Self::lemma_wf_after_replace(*old(self), *self, lobby_id.0);
        }
        evs
    }

    /// Returns a list of exposed information about each lobby, in
    /// creation order: its name, id, owner, and the registered members.
    pub fn exposed_lobby_list(&self) -> (r: Vec<ExposedLobbyInfo>)
        requires
            self.wf(),
        ensures
            r@.len() == self.spec_lobby_ids().len(),
            forall|i: int|
                0 <= i < r@.len() ==> ({
                    let info = #[trigger] r@[i];
                    let l = self.spec_lobbies()[self.spec_lobby_ids()[i].0];
                    &&& info.id == self.spec_lobby_ids()[i]
                    &&& info.name@ == l.spec_name()
                    &&& info.owner_id == l.spec_owner()
                    &&& info.players@ == spec_exposed_players(
                        l.spec_roster().spec_order(),
                        self.spec_clients(),
                    )
                }),
    {
        let mut r: Vec<ExposedLobbyInfo> = Vec::new();
        let mut i: usize = 0;
        while i < self.lobby_ids.len()
            invariant
                self.wf(),
                i <= self.spec_lobby_ids().len(),
                r@.len() == i,
                forall|j: int|
                    0 <= j < i ==> ({
                        let info = #[trigger] r@[j];
                        let l = self.spec_lobbies()[self.spec_lobby_ids()[j].0];
                        &&& info.id == self.spec_lobby_ids()[j]
                        &&& info.name@ == l.spec_name()
                        &&& info.owner_id == l.spec_owner()
                        &&& info.players@ == spec_exposed_players(
                            l.spec_roster().spec_order(),
                            self.spec_clients(),
                        )
                    }),
            decreases self.spec_lobby_ids().len() - i,
        {
            let lobby_id = self.lobby_ids[i];
            let lobby = match self.lobbies.get(&lobby_id.0) {
                Some(lobby) => lobby,
                None => vstd::pervasive::unreached(),
            };
            let ids = lobby.player_ids();
            let players = self.exposed_players(&ids);
            r.push(
                ExposedLobbyInfo {
                    name: lobby.name().clone(),
                    id: lobby_id,
                    players,
                    owner_id: lobby.owner_id(),
                },
            );
            i = i + 1;
        }
        r
    }

    /// A copy of the given player's hand in the given lobby, if the lobby
    /// exists and the player is one of its members.
    pub fn cards_in_hand_of(&self, player_id: ClientId, lobby_id: LobbyId) -> (r: Option<
        Vec<crate::cards::CardId>,
    >)
        ensures
            (self.spec_lobbies().contains_key(lobby_id.0)
                && self.spec_lobbies()[lobby_id.0].spec_roster().spec_contains(player_id)) ==> (
            r matches Some(cards) && cards@
                == self.spec_lobbies()[lobby_id.0].spec_roster().spec_players()[player_id.0]
                .cards_in_hand@),
            !(self.spec_lobbies().contains_key(lobby_id.0)
                && self.spec_lobbies()[lobby_id.0].spec_roster().spec_contains(player_id)) ==> r
                is None,
    {
        match self.lobbies.get(&lobby_id.0) {
            Some(lobby) => lobby.cards_in_hand_of(player_id),
            None => None,
        }
    }

    /// The registered lobby with the given id, if any.
    pub fn get_lobby(&self, lobby_id: LobbyId) -> (r: Option<&Lobby>)
        ensures
            self.spec_lobbies().contains_key(lobby_id.0) ==> (r matches Some(l) && *l
                == self.spec_lobbies()[lobby_id.0]),
            !self.spec_lobbies().contains_key(lobby_id.0) ==> r is None,
    {
        self.lobbies.get(&lobby_id.0)
    }

    /// Whether the given lobby exists and is in active play. The
    /// transport checks this before dispatching a click on anything but
    /// the trash, because playing a card is not part of this core.
    pub fn lobby_is_game_started(&self, lobby_id: LobbyId) -> (r: bool)
        ensures
            r == (self.spec_lobbies().contains_key(lobby_id.0)
                && self.spec_lobbies()[lobby_id.0].spec_state() is GameStarted),
    {
        match self.lobbies.get(&lobby_id.0) {
            Some(lobby) => matches!(lobby.state(), LobbyState::GameStarted(_)),
            None => false,
        }
    }
}


/// Owner invariant: every lobby of the registry has its owner among its
/// own roster, for as long as the lobby exists.
pub proof fn lemma_owner_is_member(server: GameServerState, lobby_id: LobbyId)
    requires
        server.wf(),
        server.spec_lobbies().contains_key(lobby_id.0),
    ensures
        server.spec_lobbies()[lobby_id.0].spec_roster().spec_contains(
            server.spec_lobbies()[lobby_id.0].spec_owner(),
        ),
{
    let l = server.spec_lobbies()[lobby_id.0];
    assert(l.wf());
    assert(l.spec_roster().spec_order().len() > 0);
}

} // verus!
