//! Authoritative server-side state of a small multiplayer world: who is
//! connected, which characters each player owns, and where the world
//! entities bound to those characters stand.
//!
//! Every operation runs against a [`Database`] as one all-or-nothing step:
//! it either returns `Ok` and the tables change exactly as its contract
//! says, or it returns an error and no table changes at all.

pub mod connectivity;
pub mod database;
pub mod entities;
pub mod error;
pub mod laws;
pub mod model;
pub mod players;
pub mod table;
pub mod timers;
pub mod types;

pub use connectivity::{connect, disconnect, init};
pub use database::Database;
pub use entities::{move_all_players, Entity, EntityView};
pub use error::ReducerError;
pub use model::{DatabaseView, Event};
pub use players::{
    enter_game, player_spawned, respawn, spawn_player_character_at,
    spawn_player_initial_player_character, update_player_input, Player, PlayerCharacter,
    PlayerCharacterView, PlayerView,
};
pub use table::{Row, Table};
pub use timers::{default_move_all_players_interval, MoveAllPlayersTimer, ScheduleAt};
pub use types::{CharacterStats, Identity, Transform};
