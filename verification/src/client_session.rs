//! The per-connection decision logic: which server operation each inbound
//! message triggers, given whether the session is in a lobby, and which
//! messages go back out. The transport around it only moves bytes.

use vstd::prelude::*;

use crate::game_server::GameServerError;
use crate::game_server::GameServerState;
use crate::game_server::ClientId;
use crate::game_server::spec_exposed_players;
use crate::lobby::LobbyId;
use crate::lobby::LobbyState;
use crate::messages::ClientMessage;
use crate::messages::ServerMessage;

verus! {

/// What the transport layer must do after an inbound message was handled:
/// send a message back to this client, or fan one out on a lobby's
/// broadcast channel.
#[derive(Debug, Clone, PartialEq, Eq)]
pub enum SessionEffect {
    Reply(ServerMessage),
    BroadcastLobby(LobbyId, ServerMessage),
}

/// One client's session: its identity and which lobby, if any, it is in.
#[derive(Debug, Clone, Copy, PartialEq, Eq, Structural)]
pub struct ClientSession {
    pub client_id: ClientId,
    pub lobby_id: Option<LobbyId>,
}

/// Whether the inbound message respects the core's one unimplemented
/// seam: while a lobby is in active play, the only card location a click
/// may name is the trash. Playing a card is not part of this core; the
/// transport checks this before dispatching.
pub open spec fn click_allowed(
    session: ClientSession,
    server: GameServerState,
    msg: ClientMessage,
) -> bool {
    match msg {
        ClientMessage::ClickCard(location) => match session.lobby_id {
            Some(lobby_id) => server.spec_lobbies().contains_key(lobby_id.0) ==> ((
            server.spec_lobbies()[lobby_id.0].spec_state() is GameStarted) ==> location is Trash),
            None => true,
        },
        _ => true,
    }
}

/// Wraps each lobby event as a broadcast on that lobby's channel.
fn broadcast_all(lobby_id: LobbyId, evs: Vec<ServerMessage>) -> (r: Vec<SessionEffect>)
    ensures
        r@.len() == evs@.len(),
        forall|i: int|
            0 <= i < evs@.len() ==> (#[trigger] r@[i]) == SessionEffect::BroadcastLobby(
                lobby_id,
                evs@[i],
            ),
{
    let mut r: Vec<SessionEffect> = Vec::new();
    let n = evs.len();
    // consume the events front to back
    let mut rest = evs;
    let mut taken: usize = 0;
    let ghost all = rest@;
    while taken < n
        invariant
            n == all.len(),
            taken <= n,
            rest@ == all.skip(taken as int),
            r@.len() == taken,
            forall|j: int|
                0 <= j < taken ==> (#[trigger] r@[j]) == SessionEffect::BroadcastLobby(
                    lobby_id,
                    all[j],
                ),
        decreases n - taken,
    {
        let ev = rest.remove(0);
        proof {
            assert(all.skip(taken as int)[0] == all[taken as int]);
            assert(rest@ =~= all.skip(taken + 1));
        }
        r.push(SessionEffect::BroadcastLobby(lobby_id, ev));
        taken = taken + 1;
    }
    r
}

impl ClientSession {
    /// A fresh session for a newly connected client, in no lobby.
    pub fn new(client_id: ClientId) -> (r: Self)
        ensures
            r.client_id == client_id,
            r.lobby_id is None,
    {
        ClientSession { client_id, lobby_id: None }
    }

    /// Handles one message received from the client: runs the matching
    /// server operation, tracks which lobby this session is in, and
    /// returns what the transport must send where. Every caller mistake
    /// is answered with an error reply; nothing panics.
    pub fn handle_message(
        &mut self,
        server: &mut GameServerState,
        msg: ClientMessage,
    ) -> (effects: Vec<SessionEffect>)
        requires
            old(server).wf(),
            old(server).spec_clients().contains_key(old(self).client_id.0),
            old(server).spec_next_lobby_id() < usize::MAX,
            click_allowed(*old(self), *old(server), msg),
        ensures
            final(server).wf(),
            final(server).spec_clients().contains_key(old(self).client_id.0),
            final(self).client_id == old(self).client_id,
            final(server).spec_next_client_id() == old(server).spec_next_client_id(),
            match msg {
                ClientMessage::SetUsername(new_username) => {
                    &&& final(self).lobby_id == old(self).lobby_id
                    &&& old(self).lobby_id is Some ==> ({
                        &&& final(server).spec_clients() == old(server).spec_clients()
                        &&& final(server).spec_lobbies() == old(server).spec_lobbies()
                        &&& effects@.len() == 1
                        &&& (effects@[0] matches SessionEffect::Reply(ServerMessage::Error(e))
                            && e@
                            == GameServerError::CantChangeUsernameInsideLobby.spec_message())
                    })
                    &&& old(self).lobby_id is None ==> ({
                        &&& final(server).spec_clients() == old(server).spec_clients().insert(
                            old(self).client_id.0,
                            crate::game_server::ClientInfo { username: new_username },
                        )
                        &&& final(server).spec_lobbies() == old(server).spec_lobbies()
                        &&& effects@.len() == 0
                    })
                },
                ClientMessage::GetLobbies => {
                    &&& *final(self) == *old(self)
                    &&& final(server).spec_clients() == old(server).spec_clients()
                    &&& final(server).spec_lobbies() == old(server).spec_lobbies()
                    &&& effects@.len() == 1
                    &&& (effects@[0] matches SessionEffect::Reply(ServerMessage::Lobbies(list))
                        && ({
                        &&& list@.len() == old(server).spec_lobby_ids().len()
                        &&& forall|i: int|
                            0 <= i < list@.len() ==> (#[trigger] list@[i]).id == old(
                                server,
                            ).spec_lobby_ids()[i]
                    }))
                },
                ClientMessage::JoinLobby(lobby_id) => {
                    &&& old(self).lobby_id is Some ==> ({
                        &&& *final(self) == *old(self)
                        &&& final(server).spec_lobbies() == old(server).spec_lobbies()
                        &&& effects@.len() == 1
                        &&& (effects@[0] matches SessionEffect::Reply(ServerMessage::Error(e))
                            && e@ == GameServerError::AlreadyInALobby.spec_message())
                    })
                    &&& old(self).lobby_id is None ==> ({
                        let joinable = old(server).spec_lobbies().contains_key(lobby_id.0) && ({
                            let l0 = old(server).spec_lobbies()[lobby_id.0];
                            &&& l0.spec_roster().spec_order().len()
                                < crate::lobby::MAX_PLAYERS_IN_LOBBY
                            &&& l0.spec_state() is Waiting
                            &&& !l0.spec_roster().spec_contains(old(self).client_id)
                        });
                        &&& !joinable ==> ({
                            &&& *final(self) == *old(self)
                            &&& final(server).spec_lobbies() == old(server).spec_lobbies()
                            &&& effects@.len() == 1
                            &&& (effects@[0] matches SessionEffect::Reply(
                                ServerMessage::Error(_),
                            ))
                        })
                        &&& joinable ==> ({
                            let l0 = old(server).spec_lobbies()[lobby_id.0];
                            let l1 = final(server).spec_lobbies()[lobby_id.0];
                            &&& final(self).lobby_id == Some(lobby_id)
                            &&& final(server).spec_lobbies() == old(server).spec_lobbies().insert(
                                lobby_id.0,
                                l1,
                            )
                            &&& l1.spec_roster().spec_order() == l0.spec_roster().spec_order()
                                .push(old(self).client_id)
                            &&& effects@.len() == 2
                            &&& (effects@[0] matches SessionEffect::BroadcastLobby(
                                lid,
                                ServerMessage::PlayerJoinedLobby(info),
                            ) && lid == lobby_id && info.id == old(self).client_id)
                            &&& (effects@[1] matches SessionEffect::Reply(
                                ServerMessage::JoinLobby { lobby_id: lid2, players },
                            ) && lid2 == lobby_id && players@ == spec_exposed_players(
                                l0.spec_roster().spec_order(),
                                old(server).spec_clients(),
                            ))
                        })
                    })
                },
                ClientMessage::CreateLobby { lobby_name } => {
                    &&& old(self).lobby_id is Some ==> ({
                        &&& *final(self) == *old(self)
                        &&& final(server).spec_lobbies() == old(server).spec_lobbies()
                        &&& effects@.len() == 1
                        &&& (effects@[0] matches SessionEffect::Reply(ServerMessage::Error(e))
                            && e@ == GameServerError::AlreadyInALobby.spec_message())
                    })
                    &&& old(self).lobby_id is None ==> ({
                        let new_id = LobbyId(old(server).spec_next_lobby_id() as usize);
                        let l1 = final(server).spec_lobbies()[new_id.0];
                        &&& final(self).lobby_id == Some(new_id)
                        &&& final(server).spec_lobbies() == old(server).spec_lobbies().insert(
                            new_id.0,
                            l1,
                        )
                        &&& l1.spec_name() == lobby_name@
                        &&& l1.spec_owner() == old(self).client_id
                        &&& l1.spec_roster().spec_order() == seq![old(self).client_id]
                        &&& effects@.len() == 1
                        &&& (effects@[0] matches SessionEffect::Reply(
                            ServerMessage::JoinLobby { lobby_id: lid, players },
                        ) && lid == new_id && players@.len() == 0)
                    })
                },
                ClientMessage::GetCardsInHand => {
                    &&& *final(self) == *old(self)
                    &&& final(server).spec_lobbies() == old(server).spec_lobbies()
                    &&& final(server).spec_clients() == old(server).spec_clients()
                    &&& effects@.len() == 1
                    &&& match old(self).lobby_id {
                        Some(lobby_id) => (old(server).spec_lobbies().contains_key(lobby_id.0)
                            && old(server).spec_lobbies()[lobby_id.0].spec_roster().spec_contains(
                            old(self).client_id,
                        )) ==> (effects@[0] matches SessionEffect::Reply(
                            ServerMessage::CardsInHand(cards),
                        ) && cards@ == old(server).spec_lobbies()[lobby_id.0].spec_roster()
                            .spec_players()[old(self).client_id.0].cards_in_hand@),
                        None => (effects@[0] matches SessionEffect::Reply(
                            ServerMessage::Error(e),
                        ) && e@ == GameServerError::NotInALobby.spec_message()),
                    }
                },
                ClientMessage::StartGame => {
                    &&& final(self).lobby_id == old(self).lobby_id
                    &&& old(self).lobby_id is None ==> ({
                        &&& final(server).spec_lobbies() == old(server).spec_lobbies()
                        &&& effects@.len() == 1
                        &&& (effects@[0] matches SessionEffect::Reply(ServerMessage::Error(e))
                            && e@ == GameServerError::NotOwner.spec_message())
                    })
                    &&& old(self).lobby_id matches Some(lobby_id) ==> ({
                        let startable = old(server).spec_lobbies().contains_key(lobby_id.0) && ({
                            let l0 = old(server).spec_lobbies()[lobby_id.0];
                            l0.spec_owner() == old(self).client_id && l0.spec_state() is Waiting
                        });
                        &&& !startable ==> ({
                            &&& final(server).spec_lobbies() == old(server).spec_lobbies()
                            &&& effects@.len() == 1
                            &&& (effects@[0] matches SessionEffect::Reply(
                                ServerMessage::Error(_),
                            ))
                        })
                        &&& startable ==> ({
                            let l1 = final(server).spec_lobbies()[lobby_id.0];
                            &&& final(server).spec_lobbies() == old(server).spec_lobbies().insert(
                                lobby_id.0,
                                l1,
                            )
                            &&& l1.spec_state() is Choosing3Up
                            &&& effects@ == seq![
                                SessionEffect::BroadcastLobby(lobby_id, ServerMessage::StartGame),
                            ]
                        })
                    })
                },
                ClientMessage::LeaveLobby => {
                    &&& old(self).lobby_id is None ==> ({
                        &&& *final(self) == *old(self)
                        &&& final(server).spec_lobbies() == old(server).spec_lobbies()
                        &&& effects@.len() == 1
                        &&& (effects@[0] matches SessionEffect::Reply(ServerMessage::Error(e))
                            && e@ == GameServerError::NotInALobby.spec_message())
                    })
                    &&& old(self).lobby_id matches Some(lobby_id) ==> ({
                        let in_lobby = old(server).spec_lobbies().contains_key(lobby_id.0) && old(
                            server,
                        ).spec_lobbies()[lobby_id.0].spec_roster().spec_contains(
                            old(self).client_id,
                        );
                        &&& !in_lobby ==> ({
                            &&& final(self).lobby_id == old(self).lobby_id
                            &&& final(server).spec_lobbies() == old(server).spec_lobbies()
                            &&& effects@.len() == 1
                            &&& (effects@[0] matches SessionEffect::Reply(
                                ServerMessage::Error(e),
                            ) && e@ == GameServerError::NotInALobby.spec_message())
                        })
                        &&& in_lobby ==> ({
                            &&& final(self).lobby_id is None
                            &&& forall|i: int|
                                0 <= i < effects@.len() ==> ((#[trigger] effects@[i]) matches
                                    SessionEffect::BroadcastLobby(lid, _) && lid == lobby_id)
                        })
                    })
                },
                ClientMessage::ClickCard(location) => {
                    &&& final(self).lobby_id == old(self).lobby_id
                    &&& final(server).spec_clients() == old(server).spec_clients()
                    &&& old(self).lobby_id is None ==> ({
                        &&& final(server).spec_lobbies() == old(server).spec_lobbies()
                        &&& effects@.len() == 1
                        &&& (effects@[0] matches SessionEffect::Reply(ServerMessage::Error(e))
                            && e@ == GameServerError::NotInALobby.spec_message())
                    })
                    &&& old(self).lobby_id matches Some(lobby_id) ==> ({
                        &&& !old(server).spec_lobbies().contains_key(lobby_id.0) ==> ({
                            &&& final(server).spec_lobbies() == old(server).spec_lobbies()
                            &&& effects@.len() == 1
                            &&& (effects@[0] matches SessionEffect::Reply(
                                ServerMessage::Error(e),
                            ) && e@ == GameServerError::NotInALobby.spec_message())
                        })
                        &&& old(server).spec_lobbies().contains_key(lobby_id.0) ==> ({
                            let l1 = final(server).spec_lobbies()[lobby_id.0];
                            &&& final(server).spec_lobbies() == old(server).spec_lobbies().insert(
                                lobby_id.0,
                                l1,
                            )
                            &&& forall|i: int|
                                0 <= i < effects@.len() ==> ((#[trigger] effects@[i]) matches
                                    SessionEffect::BroadcastLobby(lid, _) && lid == lobby_id)
                                    || effects@[i] is Reply
                        })
                    })
                },
            },
    {
        match msg {
            ClientMessage::SetUsername(new_username) => {
                match self.lobby_id {
                    Some(_) => {
                        // can't change name while in a lobby
                        let mut effects: Vec<SessionEffect> = Vec::new();
                        effects.push(
                            SessionEffect::Reply(
                                ServerMessage::Error(
                                    GameServerError::CantChangeUsernameInsideLobby
                                        .message()
                                        .to_owned(),
                                ),
                            ),
                        );
                        effects
                    },
                    None => {
                        server.set_username(self.client_id, new_username);
                        Vec::new()
                    },
                }
            },
            ClientMessage::JoinLobby(lobby_id) => {
                match self.lobby_id {
                    Some(_) => {
                        let mut effects: Vec<SessionEffect> = Vec::new();
                        effects.push(
                            SessionEffect::Reply(
                                ServerMessage::Error(
                                    GameServerError::AlreadyInALobby.message().to_owned(),
                                ),
                            ),
                        );
                        effects
                    },
                    None => {
                        match server.join_lobby(self.client_id, lobby_id) {
                            Ok((players, evs)) => {
                                self.lobby_id = Some(lobby_id);
                                let mut effects = broadcast_all(lobby_id, evs);
                                effects.push(
                                    SessionEffect::Reply(
                                        ServerMessage::JoinLobby { lobby_id, players },
                                    ),
                                );
                                effects
                            },
                            Err(err) => {
                                let mut effects: Vec<SessionEffect> = Vec::new();
                                effects.push(
                                    SessionEffect::Reply(
                                        ServerMessage::Error(err.message().to_owned()),
                                    ),
                                );
                                effects
                            },
                        }
                    },
                }
            },
            ClientMessage::CreateLobby { lobby_name } => {
                match self.lobby_id {
                    Some(_) => {
                        let mut effects: Vec<SessionEffect> = Vec::new();
                        effects.push(
                            SessionEffect::Reply(
                                ServerMessage::Error(
                                    GameServerError::AlreadyInALobby.message().to_owned(),
                                ),
                            ),
                        );
                        effects
                    },
                    None => {
                        let new_lobby_id = server.create_lobby(lobby_name, self.client_id);
                        self.lobby_id = Some(new_lobby_id);
                        let mut effects: Vec<SessionEffect> = Vec::new();
                        effects.push(
                            SessionEffect::Reply(
                                ServerMessage::JoinLobby {
                                    lobby_id: new_lobby_id,
                                    players: Vec::new(),
                                },
                            ),
                        );
                        effects
                    },
                }
            },
            ClientMessage::GetLobbies => {
                let list = server.exposed_lobby_list();
                let mut effects: Vec<SessionEffect> = Vec::new();
                effects.push(SessionEffect::Reply(ServerMessage::Lobbies(list)));
                effects
            },
            ClientMessage::GetCardsInHand => {
                let mut effects: Vec<SessionEffect> = Vec::new();
                match self.lobby_id {
                    Some(lobby_id) => {
                        let cards = server.cards_in_hand_of(self.client_id, lobby_id);
                        match cards {
                            Some(cards) => {
                                effects.push(
                                    SessionEffect::Reply(ServerMessage::CardsInHand(cards)),
                                );
                            },
                            None => {
                                effects.push(
                                    SessionEffect::Reply(
                                        ServerMessage::Error(
                                            GameServerError::NotInALobby.message().to_owned(),
                                        ),
                                    ),
                                );
                            },
                        }
                    },
                    None => {
                        effects.push(
                            SessionEffect::Reply(
                                ServerMessage::Error(
                                    GameServerError::NotInALobby.message().to_owned(),
                                ),
                            ),
                        );
                    },
                }
                effects
            },
            ClientMessage::StartGame => {
                match self.lobby_id {
                    Some(lobby_id) => {
                        match server.start_game(self.client_id, lobby_id) {
                            Ok(()) => {
                                let mut effects: Vec<SessionEffect> = Vec::new();
                                effects.push(
                                    SessionEffect::BroadcastLobby(
                                        lobby_id,
                                        ServerMessage::StartGame,
                                    ),
                                );
                                proof {
                                    assert(effects@ =~= seq![
                                        SessionEffect::BroadcastLobby(
                                            lobby_id,
                                            ServerMessage::StartGame,
                                        ),
                                    ]);
                                }
                                effects
                            },
                            Err(err) => {
                                let mut effects: Vec<SessionEffect> = Vec::new();
                                effects.push(
                                    SessionEffect::Reply(
                                        ServerMessage::Error(err.message().to_owned()),
                                    ),
                                );
                                effects
                            },
                        }
                    },
                    None => {
                        // not in a lobby, so surely not an owner
                        let mut effects: Vec<SessionEffect> = Vec::new();
                        effects.push(
                            SessionEffect::Reply(
                                ServerMessage::Error(GameServerError::NotOwner.message().to_owned()),
                            ),
                        );
                        effects
                    },
                }
            },
            ClientMessage::LeaveLobby => {
                match self.lobby_id {
                    Some(lobby_id) => {
                        match server.remove_player_from_lobby(self.client_id, lobby_id) {
                            Ok(evs) => {
                                self.lobby_id = None;
                                broadcast_all(lobby_id, evs)
                            },
                            Err(err) => {
                                let mut effects: Vec<SessionEffect> = Vec::new();
                                effects.push(
                                    SessionEffect::Reply(
                                        ServerMessage::Error(err.message().to_owned()),
                                    ),
                                );
                                effects
                            },
                        }
                    },
                    None => {
                        let mut effects: Vec<SessionEffect> = Vec::new();
                        effects.push(
                            SessionEffect::Reply(
                                ServerMessage::Error(
                                    GameServerError::NotInALobby.message().to_owned(),
                                ),
                            ),
                        );
                        effects
                    },
                }
            },
            ClientMessage::ClickCard(location) => {
                match self.lobby_id {
                    Some(lobby_id) => {
                        match server.click_card(self.client_id, lobby_id, location) {
                            Ok(evs) => broadcast_all(lobby_id, evs),
                            Err(err) => {
                                let mut effects: Vec<SessionEffect> = Vec::new();
                                effects.push(
                                    SessionEffect::Reply(
                                        ServerMessage::Error(err.message().to_owned()),
                                    ),
                                );
                                effects
                            },
                        }
                    },
                    None => {
                        let mut effects: Vec<SessionEffect> = Vec::new();
                        effects.push(
                            SessionEffect::Reply(
                                ServerMessage::Error(
                                    GameServerError::NotInALobby.message().to_owned(),
                                ),
                            ),
                        );
                        effects
                    },
                }
            },
        }
    }

    /// Cleans up after the client once its connection is gone: first the
    /// lobby membership is revoked — with the same consequences as a
    /// voluntary leave — and only then the client's record, so no
    /// observer ever sees a lobby holding a client absent from the
    /// registry. Returns the broadcasts the departure caused.
    pub fn cleanup(&mut self, server: &mut GameServerState) -> (effects: Vec<SessionEffect>)
        requires
            old(server).wf(),
        ensures
            final(server).wf(),
            final(self).lobby_id is None,
            final(server).spec_clients() == old(server).spec_clients().remove(
                old(self).client_id.0,
            ),
            old(self).lobby_id is None ==> final(server).spec_lobbies() == old(
                server,
            ).spec_lobbies() && effects@.len() == 0,
            old(self).lobby_id matches Some(lobby_id) ==> (final(server).spec_lobbies()
                .contains_key(lobby_id.0) ==> !final(server).spec_lobbies()[lobby_id.0]
                .spec_roster().spec_contains(old(self).client_id)),
            forall|i: int|
                0 <= i < effects@.len() ==> (#[trigger] effects@[i]) is BroadcastLobby,
    {
        let effects = match self.lobby_id {
            Some(lobby_id) => {
                match server.remove_player_from_lobby(self.client_id, lobby_id) {
                    Ok(evs) => broadcast_all(lobby_id, evs),
                    Err(_) => Vec::new(),
                }
            },
            None => Vec::new(),
        };
        self.lobby_id = None;
        server.remove_client(self.client_id);
        effects
    }
}

} // verus!
