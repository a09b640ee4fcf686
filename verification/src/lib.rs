//! Authoritative server core for a Shithead-style card game: the card
//! catalog and legality engine, deck handling, the ordered player roster,
//! the per-lobby state machine with its turn timers, and the process-wide
//! game server registry.

pub mod cards;
pub mod client_session;
pub mod deck;
pub mod game_server;
pub mod lobby;
pub mod lobby_player;
pub mod messages;
pub mod ordered_lobby_players;
pub mod timer;

pub use cards::Card;
pub use cards::CardId;
pub use cards::CardsById;
pub use cards::Rank;
pub use cards::Suit;
pub use client_session::ClientSession;
pub use client_session::SessionEffect;
pub use client_session::click_allowed;
pub use deck::CardsDeck;
pub use game_server::ClientId;
pub use game_server::ClientInfo;
pub use game_server::ExposedLobbyInfo;
pub use game_server::ExposedLobbyPlayerInfo;
pub use game_server::GameServerError;
pub use game_server::GameServerState;
pub use game_server::JoinLobbyError;
pub use game_server::StartGameError;
pub use game_server::spec_exposed_players;
pub use lobby::CHOOSE_TOP_3_DURATION_SECS;
pub use lobby::Choosing3UpState;
pub use lobby::INITIAL_CARDS_IN_HAND_AMOUNT;
pub use lobby::InGameLobbyState;
pub use lobby::Lobby;
pub use lobby::LobbyId;
pub use lobby::LobbyState;
pub use lobby::MAX_PLAYERS_IN_LOBBY;
pub use lobby::RemovePlayerFromLobbyResult;
pub use lobby::THREE_DOWN_CARDS_AMOUNT;
pub use lobby::THREE_UP_CARDS_AMOUNT;
pub use lobby::TURN_DURATION_SECS;
pub use lobby::Turn;
pub use lobby_player::LobbyPlayer;
pub use messages::ClickedCardLocation;
pub use messages::ClientMessage;
pub use messages::HandshakeClientInfo;
pub use messages::ServerMessage;
pub use ordered_lobby_players::OrderedLobbyPlayers;
pub use timer::TimerLog;
pub use timer::TimerState;
