//! The protocol messages the core consumes and produces. The transport
//! layer serializes them; the core only decides which to send.

use vstd::prelude::*;

use crate::cards::CardId;
use crate::game_server::ClientId;
use crate::game_server::ExposedLobbyInfo;
use crate::game_server::ExposedLobbyPlayerInfo;
use crate::lobby::LobbyId;

verus! {

/// A message sent by the server, to one client or to all members of a
/// lobby.
#[derive(Debug, Clone, PartialEq, Eq)]
pub enum ServerMessage {
    Handshake(HandshakeClientInfo),
    Lobbies(Vec<ExposedLobbyInfo>),
    JoinLobby { lobby_id: LobbyId, players: Vec<ExposedLobbyPlayerInfo> },
    Error(String),
    PlayerJoinedLobby(ExposedLobbyPlayerInfo),
    PlayerLeftLobby(ClientId),
    LobbyOwnerChanged { new_owner_id: ClientId },
    OwnerLeftLobby { new_owner_id: ClientId },
    StartGame,
    CardsInHand(Vec<CardId>),
    MovePlayerCardFromThreeUpToHand { up_three_card_index: usize, player_id: ClientId },
    MovePlayerCardFromHandToThreeUp { hand_card_index: usize, player_id: ClientId },
    TheeUpSelectionDone {
        three_up_cards_of_modified_players: Vec<(ClientId, Vec<CardId>)>,
    },
    GiveTrash(ClientId),
    Turn(ClientId),
}

/// A message sent by a client.
#[derive(Debug, Clone, PartialEq, Eq)]
pub enum ClientMessage {
    SetUsername(String),
    GetLobbies,
    JoinLobby(LobbyId),
    LeaveLobby,
    CreateLobby { lobby_name: String },
    GetCardsInHand,
    StartGame,
    ClickCard(ClickedCardLocation),
}

/// What the server tells a client right after it connects.
#[derive(Debug, Clone, PartialEq, Eq)]
pub struct HandshakeClientInfo {
    pub id: ClientId,
    pub username: String,
}

/// Which card a client clicked.
#[derive(Debug, Clone, Copy, PartialEq, Eq, Structural)]
pub enum ClickedCardLocation {
    Trash,
    FromCardsInHand { card_index: usize },
    FromThreeUpCards { card_index: usize },
    FromThreeDownCards { card_index: usize },
}

} // verus!
