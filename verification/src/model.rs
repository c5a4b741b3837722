//! The tables as mathematical maps, and every operation as a function from
//! the tables before it to the tables after it.
//!
//! The executable operations promise to change the tables exactly as the
//! functions of this module say. What holds of every reachable state is
//! proved about these functions, once, in [`crate::laws`].

use vstd::prelude::*;
use crate::entities::EntityView;
use crate::error::ReducerError;
use crate::players::{PlayerCharacterView, PlayerView};
use crate::timers::{MoveAllPlayersTimer, ScheduleAt};
use crate::types::{Identity, Transform};

verus! {

/// The tag of the entity that stands for a character.
pub open spec fn player_pawn() -> Seq<char> {
    "player_pawn"@
}

/// The cadence record as the store holds it after start-up.
pub open spec fn stored_default_timer() -> MoveAllPlayersTimer {
    MoveAllPlayersTimer { scheduled_id: 1, scheduled_at: ScheduleAt::Interval(50_000) }
}

/// The rows of `characters` that belong to the player `player_id`.
pub open spec fn owned_by(
    characters: Map<u32, PlayerCharacterView>,
    player_id: u32,
) -> Map<u32, PlayerCharacterView> {
    Map::new(
        |c: u32| characters.contains_key(c) && characters[c].player_id == player_id,
        |c: u32| characters[c],
    )
}

/// The rows of `characters` that belong to another player than `player_id`.
pub open spec fn not_owned_by(
    characters: Map<u32, PlayerCharacterView>,
    player_id: u32,
) -> Map<u32, PlayerCharacterView> {
    Map::new(
        |c: u32| characters.contains_key(c) && characters[c].player_id != player_id,
        |c: u32| characters[c],
    )
}

/// What the tables hold.
#[verifier::ext_equal]
pub struct DatabaseView {
    /// The online players, by identity.
    pub players: Map<Identity, PlayerView>,
    /// The offline players, by identity.
    pub offline_players: Map<Identity, PlayerView>,
    /// The online characters, by character id.
    pub player_characters: Map<u32, PlayerCharacterView>,
    /// The offline characters, by character id.
    pub offline_player_characters: Map<u32, PlayerCharacterView>,
    /// The live entities, by entity id.
    pub entities: Map<u32, EntityView>,
    /// The cadence record, once the system has been started.
    pub move_all_players_timer: Option<MoveAllPlayersTimer>,
    /// The greatest player id assigned so far; the next player gets one more.
    pub last_player_id: u32,
    /// The greatest character id assigned so far.
    pub last_character_id: u32,
    /// The greatest entity id assigned so far.
    pub last_entity_id: u32,
}

/// One thing that can happen to the tables.
pub enum Event {
    /// The system starts.
    Init,
    /// A client's session starts.
    Connect { sender: Identity },
    /// A client's session ends.
    Disconnect { sender: Identity },
    /// A client names its player and asks for a character.
    EnterGame { sender: Identity, name: Seq<char> },
    /// A client asks for one more character.
    Respawn { sender: Identity },
    /// A client says where its characters should be.
    UpdatePlayerInput { sender: Identity, new_transform: Transform },
    /// A client reports that it shows a character.
    PlayerSpawned { character_id: u32 },
    /// The scheduler's tick.
    MoveAllPlayers,
    /// A character is created for a player at a pose.
    SpawnPlayerCharacterAt { player_id: u32, position: Transform },
    /// An entity is deleted behind the operations' back.
    DeleteEntity { entity_id: u32 },
    /// The cadence record is replaced, to change when the tick is due.
    UpdateTimer { timer: MoveAllPlayersTimer },
}

/// The state that the empty store is in after the events of `events` have
/// happened one after the other, each refused one leaving the state as it
/// was.
pub open spec fn reached_by(events: Seq<Event>) -> DatabaseView
    decreases events.len(),
{
    if events.len() == 0 {
        DatabaseView::empty()
    } else {
        reached_by(events.drop_last()).after(events.last())
    }
}

/// No event of the run `events` unbinds a character in the state in which
/// it happens.
pub open spec fn never_unbinds(events: Seq<Event>) -> bool {
    forall|n: int|
        0 <= n < events.len() ==> !(#[trigger] events[n]).unbinds(reached_by(events.take(n)))
}

/// No event of the run `events` creates a character for a player id that
/// no online player has in the state in which it happens.
pub open spec fn never_spawns_for_nobody(events: Seq<Event>) -> bool {
    forall|n: int|
        0 <= n < events.len() ==> !(#[trigger] events[n]).spawns_for_nobody(
            reached_by(events.take(n)),
        )
}

impl Event {
    /// Whether this event, in the state `pre`, creates a character for a
    /// player id that no online player has.
    pub open spec fn spawns_for_nobody(self, pre: DatabaseView) -> bool {
        match self {
            Event::SpawnPlayerCharacterAt { player_id, position } => !pre.is_online_player(
                player_id,
            ),
            _ => false,
        }
    }

    /// Whether this event, in the state `pre`, brings a character online
    /// without an entity or takes the entity of an online character away:
    /// the return of an offline player that owns offline characters, and
    /// the deletion of an entity to which an online character is bound.
    pub open spec fn unbinds(self, pre: DatabaseView) -> bool {
        match self {
            Event::Connect { sender } => pre.offline_players.contains_key(sender)
                && pre.has_offline_character(pre.offline_players[sender].player_id),
            Event::DeleteEntity { entity_id } => pre.has_pawn(entity_id),
            _ => false,
        }
    }
}

impl DatabaseView {
    /// The tables of a fresh store: no rows, no ids assigned.
    pub open spec fn empty() -> DatabaseView {
        DatabaseView {
            players: Map::empty(),
            offline_players: Map::empty(),
            player_characters: Map::empty(),
            offline_player_characters: Map::empty(),
            entities: Map::empty(),
            move_all_players_timer: None,
            last_player_id: 0,
            last_character_id: 0,
            last_entity_id: 0,
        }
    }

    // ------------------------------------------------------------------
    // Looking things up
    // ------------------------------------------------------------------

    /// The player with the identity `id`, online or offline.
    pub open spec fn player_row(self, id: Identity) -> Option<PlayerView> {
        if self.players.contains_key(id) {
            Some(self.players[id])
        } else if self.offline_players.contains_key(id) {
            Some(self.offline_players[id])
        } else {
            None
        }
    }

    /// The character with the id `c`, online or offline.
    pub open spec fn character_row(self, c: u32) -> Option<PlayerCharacterView> {
        if self.player_characters.contains_key(c) {
            Some(self.player_characters[c])
        } else if self.offline_player_characters.contains_key(c) {
            Some(self.offline_player_characters[c])
        } else {
            None
        }
    }

    /// Whether the online character `c` is bound to the entity `entity_id`.
    pub open spec fn pawn_is(self, c: u32, entity_id: u32) -> bool {
        self.player_characters.contains_key(c) && self.player_characters[c].entity_id == entity_id
    }

    /// Whether some online character is bound to the entity `entity_id`.
    pub open spec fn has_pawn(self, entity_id: u32) -> bool {
        exists|c: u32| self.pawn_is(c, entity_id)
    }

    /// An online character that is bound to the entity `entity_id`. In a
    /// well-formed state there is at most one.
    pub open spec fn pawn_owner(self, entity_id: u32) -> u32 {
        choose|c: u32| self.pawn_is(c, entity_id)
    }

    /// Whether the online character `c` belongs to `player_id` and is bound
    /// to the entity `entity_id`.
    pub open spec fn pawn_of_player_is(self, c: u32, player_id: u32, entity_id: u32) -> bool {
        self.pawn_is(c, entity_id) && self.player_characters[c].player_id == player_id
    }

    /// The entities to which the online characters of `player_id` are bound.
    pub open spec fn pawns_of(self, player_id: u32) -> Set<u32> {
        Set::new(|e: u32| exists|c: u32| self.pawn_of_player_is(c, player_id, e))
    }

    /// Whether the online character `c` belongs to `player_id` and its
    /// entity is gone.
    pub open spec fn is_stray_of(self, c: u32, player_id: u32) -> bool {
        &&& self.player_characters.contains_key(c)
        &&& self.player_characters[c].player_id == player_id
        &&& !self.entities.contains_key(self.player_characters[c].entity_id)
    }

    /// Whether some online character of `player_id` is bound to an entity
    /// that is gone.
    pub open spec fn has_stray(self, player_id: u32) -> bool {
        exists|c: u32| self.is_stray_of(c, player_id)
    }

    /// Whether the character `c` is online and belongs to `player_id`.
    pub open spec fn is_online_character_of(self, c: u32, player_id: u32) -> bool {
        self.player_characters.contains_key(c) && self.player_characters[c].player_id == player_id
    }

    /// Whether `player_id` has an online character.
    pub open spec fn has_online_character(self, player_id: u32) -> bool {
        exists|c: u32| self.is_online_character_of(c, player_id)
    }

    /// Whether the character `c` is offline and belongs to `player_id`.
    pub open spec fn is_offline_character_of(self, c: u32, player_id: u32) -> bool {
        self.offline_player_characters.contains_key(c)
            && self.offline_player_characters[c].player_id == player_id
    }

    /// Whether `player_id` has an offline character.
    pub open spec fn has_offline_character(self, player_id: u32) -> bool {
        exists|c: u32| self.is_offline_character_of(c, player_id)
    }

    /// Whether `id` is an online player with the player id `player_id`.
    pub open spec fn is_online_as(self, id: Identity, player_id: u32) -> bool {
        self.players.contains_key(id) && self.players[id].player_id == player_id
    }

    /// Whether some online player has the player id `player_id`.
    pub open spec fn is_online_player(self, player_id: u32) -> bool {
        exists|id: Identity| self.is_online_as(id, player_id)
    }

    /// Whether `id` is an offline player with the player id `player_id`.
    pub open spec fn is_offline_as(self, id: Identity, player_id: u32) -> bool {
        self.offline_players.contains_key(id) && self.offline_players[id].player_id == player_id
    }

    /// Whether some offline player has the player id `player_id`.
    pub open spec fn is_offline_player(self, player_id: u32) -> bool {
        exists|id: Identity| self.is_offline_as(id, player_id)
    }

    // ------------------------------------------------------------------
    // What holds of every reachable state
    // ------------------------------------------------------------------

    /// Every player row is stored under its own identity, in one set only,
    /// with an id that the store has assigned and that no other player has.
    pub open spec fn players_wf(self) -> bool {
        &&& forall|id: Identity| #[trigger]
            self.players.contains_key(id) ==> {
                &&& self.players[id].identity == id
                &&& 1 <= self.players[id].player_id <= self.last_player_id
                &&& !self.offline_players.contains_key(id)
            }
        &&& forall|id: Identity| #[trigger]
            self.offline_players.contains_key(id) ==> {
                &&& self.offline_players[id].identity == id
                &&& 1 <= self.offline_players[id].player_id <= self.last_player_id
            }
        &&& forall|a: Identity, b: Identity|
            (#[trigger] self.player_row(a)) is Some && (#[trigger] self.player_row(b)) is Some && a
                != b ==> self.player_row(a)->0.player_id != self.player_row(b)->0.player_id
    }

    /// Every character row is stored under its own id, in one set only, with
    /// ids that the store has assigned; no two characters are bound to the
    /// same entity; and no offline character has a live entity.
    pub open spec fn characters_wf(self) -> bool {
        &&& forall|c: u32| #[trigger]
            self.player_characters.contains_key(c) ==> {
                &&& self.player_characters[c].character_id == c
                &&& 1 <= c <= self.last_character_id
                &&& 1 <= self.player_characters[c].entity_id <= self.last_entity_id
                &&& !self.offline_player_characters.contains_key(c)
            }
        &&& forall|c: u32| #[trigger]
            self.offline_player_characters.contains_key(c) ==> {
                &&& self.offline_player_characters[c].character_id == c
                &&& 1 <= c <= self.last_character_id
                &&& 1 <= self.offline_player_characters[c].entity_id <= self.last_entity_id
                &&& !self.entities.contains_key(self.offline_player_characters[c].entity_id)
            }
        &&& forall|a: u32, b: u32|
            (#[trigger] self.character_row(a)) is Some && (#[trigger] self.character_row(b))
                is Some && a != b ==> self.character_row(a)->0.entity_id != self.character_row(
                b,
            )->0.entity_id
    }

    /// Every entity row is stored under its own id, which the store has
    /// assigned.
    pub open spec fn entities_wf(self) -> bool {
        forall|e: u32| #[trigger]
            self.entities.contains_key(e) ==> {
                &&& self.entities[e].entity_id == e
                &&& 1 <= e <= self.last_entity_id
            }
    }

    /// What holds of the tables together in every state that the events
    /// can reach: the players, the characters and the entities are well
    /// formed.
    pub open spec fn wf(self) -> bool {
        &&& self.players_wf()
        &&& self.characters_wf()
        &&& self.entities_wf()
    }

    /// Every character is in the set that its owner is in: the owner of an
    /// online character is an online player, the owner of an offline
    /// character an offline player.
    pub open spec fn owners_mirrored(self) -> bool {
        &&& forall|c: u32| #[trigger]
            self.player_characters.contains_key(c) ==> self.is_online_player(
                self.player_characters[c].player_id,
            )
        &&& forall|c: u32| #[trigger]
            self.offline_player_characters.contains_key(c) ==> self.is_offline_player(
                self.offline_player_characters[c].player_id,
            )
    }

    /// Every online character is bound to a live entity.
    pub open spec fn online_characters_bound(self) -> bool {
        forall|c: u32| #[trigger]
            self.player_characters.contains_key(c) ==> self.entities.contains_key(
                self.player_characters[c].entity_id,
            )
    }

    // ------------------------------------------------------------------
    // The spawner
    // ------------------------------------------------------------------

    /// Whether the store has an entity id and a character id left to assign.
    pub open spec fn can_spawn(self) -> bool {
        self.last_entity_id < u32::MAX && self.last_character_id < u32::MAX
    }

    /// The entity that the next spawn creates.
    pub open spec fn next_entity(self, position: Transform) -> EntityView {
        EntityView {
            entity_id: (self.last_entity_id + 1) as u32,
            entity_type: player_pawn(),
            transform: position,
        }
    }

    /// The character that the next spawn creates.
    pub open spec fn next_character(
        self,
        player_id: u32,
        position: Transform,
    ) -> PlayerCharacterView {
        PlayerCharacterView {
            character_id: (self.last_character_id + 1) as u32,
            player_id,
            entity_id: (self.last_entity_id + 1) as u32,
            display_name: Seq::empty(),
            transform: position,
            needs_spawn: true,
        }
    }

    /// The tables with one more entity and one more online character bound
    /// to it.
    pub open spec fn with_spawn(self, player_id: u32, position: Transform) -> DatabaseView {
        let entity = self.next_entity(position);
        let character = self.next_character(player_id, position);
        DatabaseView {
            entities: self.entities.insert(entity.entity_id, entity),
            player_characters: self.player_characters.insert(character.character_id, character),
            last_entity_id: entity.entity_id,
            last_character_id: character.character_id,
            ..self
        }
    }

    /// Creates an entity at `position` and an online character of
    /// `player_id` bound to it. Refused when an id sequence is used up.
    pub open spec fn spawn_player_character_at(
        self,
        player_id: u32,
        position: Transform,
    ) -> Result<DatabaseView, ReducerError> {
        if self.can_spawn() {
            Ok(self.with_spawn(player_id, position))
        } else {
            Err(ReducerError::ConflictError)
        }
    }

    /// Creates a character of `player_id` at the default pose.
    pub open spec fn spawn_player_initial_player_character(
        self,
        player_id: u32,
    ) -> Result<DatabaseView, ReducerError> {
        self.spawn_player_character_at(player_id, Transform::default_spawn())
    }

    // ------------------------------------------------------------------
    // Sessions
    // ------------------------------------------------------------------

    /// Stores the cadence record. Refused when it is stored already.
    pub open spec fn init(self) -> Result<DatabaseView, ReducerError> {
        if self.move_all_players_timer is Some {
            Err(ReducerError::ConflictError)
        } else {
            Ok(DatabaseView { move_all_players_timer: Some(stored_default_timer()), ..self })
        }
    }

    /// The tables after the offline player `sender` and all its offline
    /// characters have moved to the online sets. No entity is created.
    pub open spec fn with_player_restored(self, sender: Identity) -> DatabaseView {
        let player = self.offline_players[sender];
        DatabaseView {
            players: self.players.insert(sender, player),
            offline_players: self.offline_players.remove(sender),
            player_characters: self.player_characters.union_prefer_right(
                owned_by(self.offline_player_characters, player.player_id),
            ),
            offline_player_characters: not_owned_by(
                self.offline_player_characters,
                player.player_id,
            ),
            ..self
        }
    }

    /// The tables with one more online player: `sender`, with the next
    /// player id and an empty name.
    pub open spec fn with_new_player(self, sender: Identity) -> DatabaseView {
        let player = PlayerView {
            identity: sender,
            player_id: (self.last_player_id + 1) as u32,
            display_name: Seq::empty(),
        };
        DatabaseView {
            players: self.players.insert(sender, player),
            last_player_id: player.player_id,
            ..self
        }
    }

    /// A session of `sender` starts.
    ///
    /// A player that is offline comes back online with its characters. An
    /// identity that is new gets a player row and, unless the new player id
    /// already owns an online character, one character at the default pose.
    /// Refused when `sender` is online already or an id sequence is used up.
    pub open spec fn connect(self, sender: Identity) -> Result<DatabaseView, ReducerError> {
        if self.offline_players.contains_key(sender) {
            Ok(self.with_player_restored(sender))
        } else if self.players.contains_key(sender) || self.last_player_id == u32::MAX {
            Err(ReducerError::ConflictError)
        } else {
            let joined = self.with_new_player(sender);
            if joined.has_online_character(joined.last_player_id) {
                Ok(joined)
            } else {
                joined.spawn_player_initial_player_character(joined.last_player_id)
            }
        }
    }

    /// The tables after the online player `sender` and all its online
    /// characters have moved to the offline sets and the entities of those
    /// characters have been deleted.
    pub open spec fn with_player_retired(self, sender: Identity) -> DatabaseView {
        let player = self.players[sender];
        DatabaseView {
            players: self.players.remove(sender),
            offline_players: self.offline_players.insert(sender, player),
            player_characters: not_owned_by(self.player_characters, player.player_id),
            offline_player_characters: self.offline_player_characters.union_prefer_right(
                owned_by(self.player_characters, player.player_id),
            ),
            entities: self.entities.remove_keys(self.pawns_of(player.player_id)),
            ..self
        }
    }

    /// The session of `sender` ends.
    ///
    /// Refused when `sender` is not online, and when one of its online
    /// characters is bound to an entity that is gone.
    pub open spec fn disconnect(self, sender: Identity) -> Result<DatabaseView, ReducerError> {
        if !self.players.contains_key(sender) {
            Err(ReducerError::PlayerNotFound)
        } else if self.has_stray(self.players[sender].player_id) {
            Err(ReducerError::EntityNotFound)
        } else {
            Ok(self.with_player_retired(sender))
        }
    }

    // ------------------------------------------------------------------
    // What a client asks for
    // ------------------------------------------------------------------

    /// The tables with the display name of the online player `sender` set
    /// to `name`.
    pub open spec fn with_name(self, sender: Identity, name: Seq<char>) -> DatabaseView {
        DatabaseView {
            players: self.players.insert(
                sender,
                PlayerView { display_name: name, ..self.players[sender] },
            ),
            ..self
        }
    }

    /// The online player `sender` takes the name `name` and gets one more
    /// character at the default pose.
    pub open spec fn enter_game(
        self,
        sender: Identity,
        name: Seq<char>,
    ) -> Result<DatabaseView, ReducerError> {
        if !self.players.contains_key(sender) {
            Err(ReducerError::PlayerNotFound)
        } else {
            self.with_name(sender, name).spawn_player_initial_player_character(
                self.players[sender].player_id,
            )
        }
    }

    /// The online player `sender` gets one more character at the default
    /// pose. The characters it has already stay.
    pub open spec fn respawn(self, sender: Identity) -> Result<DatabaseView, ReducerError> {
        if !self.players.contains_key(sender) {
            Err(ReducerError::PlayerNotFound)
        } else {
            self.spawn_player_initial_player_character(self.players[sender].player_id)
        }
    }

    /// The tables with the intended pose of every online character of
    /// `player_id` set to `new_transform`.
    pub open spec fn with_input(self, player_id: u32, new_transform: Transform) -> DatabaseView {
        DatabaseView {
            player_characters: self.player_characters.map_values(
                |row: PlayerCharacterView|
                    if row.player_id == player_id {
                        PlayerCharacterView { transform: new_transform, ..row }
                    } else {
                        row
                    },
            ),
            ..self
        }
    }

    /// Every online character of the online player `sender` is told to be at
    /// `new_transform`.
    pub open spec fn update_player_input(
        self,
        sender: Identity,
        new_transform: Transform,
    ) -> Result<DatabaseView, ReducerError> {
        if !self.players.contains_key(sender) {
            Err(ReducerError::PlayerNotFound)
        } else {
            Ok(self.with_input(self.players[sender].player_id, new_transform))
        }
    }

    /// The online character `character_id` no longer needs to be spawned.
    pub open spec fn player_spawned(self, character_id: u32) -> Result<DatabaseView, ReducerError> {
        if !self.player_characters.contains_key(character_id) {
            Err(ReducerError::CharacterNotFound)
        } else {
            Ok(
                DatabaseView {
                    player_characters: self.player_characters.insert(
                        character_id,
                        PlayerCharacterView {
                            needs_spawn: false,
                            ..self.player_characters[character_id]
                        },
                    ),
                    ..self
                },
            )
        }
    }

    // ------------------------------------------------------------------
    // Movement
    // ------------------------------------------------------------------

    /// The entity `entity_id` after a tick: at the intended pose of the
    /// online character bound to it, or as it was where there is none.
    pub open spec fn moved_entity(self, entity_id: u32) -> EntityView {
        if self.has_pawn(entity_id) {
            EntityView {
                transform: self.player_characters[self.pawn_owner(entity_id)].transform,
                ..self.entities[entity_id]
            }
        } else {
            self.entities[entity_id]
        }
    }

    /// One tick: every live entity to which an online character is bound
    /// takes that character's intended pose. A character whose entity is
    /// gone is passed over.
    pub open spec fn move_all_players(self) -> DatabaseView {
        DatabaseView {
            entities: Map::new(
                |e: u32| self.entities.contains_key(e),
                |e: u32| self.moved_entity(e),
            ),
            ..self
        }
    }

    /// The entity `entity_id` is deleted, whoever is bound to it.
    pub open spec fn delete_entity(self, entity_id: u32) -> DatabaseView {
        DatabaseView { entities: self.entities.remove(entity_id), ..self }
    }

    /// Whether the cadence record is stored under the id of `timer`.
    pub open spec fn holds_timer(self, timer: MoveAllPlayersTimer) -> bool {
        self.move_all_players_timer is Some && self.move_all_players_timer->0.scheduled_id
            == timer.scheduled_id
    }

    /// The stored cadence record is replaced by `timer`, which has the same
    /// id. Where no record with that id is stored, nothing changes.
    pub open spec fn update_timer(self, timer: MoveAllPlayersTimer) -> DatabaseView {
        if self.holds_timer(timer) {
            DatabaseView { move_all_players_timer: Some(timer), ..self }
        } else {
            self
        }
    }

    // ------------------------------------------------------------------
    // Events
    // ------------------------------------------------------------------

    /// What `event` makes of the tables, or why it is refused.
    pub open spec fn apply(self, event: Event) -> Result<DatabaseView, ReducerError> {
        match event {
            Event::Init => self.init(),
            Event::Connect { sender } => self.connect(sender),
            Event::Disconnect { sender } => self.disconnect(sender),
            Event::EnterGame { sender, name } => self.enter_game(sender, name),
            Event::Respawn { sender } => self.respawn(sender),
            Event::UpdatePlayerInput { sender, new_transform } => self.update_player_input(
                sender,
                new_transform,
            ),
            Event::PlayerSpawned { character_id } => self.player_spawned(character_id),
            Event::MoveAllPlayers => Ok(self.move_all_players()),
            Event::SpawnPlayerCharacterAt { player_id, position } => self.spawn_player_character_at(
                player_id,
                position,
            ),
            Event::DeleteEntity { entity_id } => Ok(self.delete_entity(entity_id)),
            Event::UpdateTimer { timer } => Ok(self.update_timer(timer)),
        }
    }

    /// The tables after `event`: changed as `event` says, or, where it is
    /// refused, exactly as they were.
    pub open spec fn after(self, event: Event) -> DatabaseView {
        match self.apply(event) {
            Ok(next) => next,
            Err(_) => self,
        }
    }
}

} // verus!
