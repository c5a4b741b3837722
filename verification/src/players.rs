//! Player accounts, their characters, and the operations that a player's
//! client asks for.

use vstd::prelude::*;
use crate::database::Database;
use crate::entities::Entity;
use crate::error::ReducerError;
use crate::laws::{lemma_event_keeps_wf, lemma_name_keeps_wf};
use crate::model::{DatabaseView, Event};
use crate::table::Row;
use crate::types::{Identity, Transform, HUNDRED_BITS, ZERO_BITS};

verus! {

/// A player account. It is stored among the online players while its client
/// is connected and among the offline players otherwise.
#[derive(Clone, Debug, PartialEq, Eq)]
pub struct Player {
    /// The primary key.
    pub identity: Identity,
    /// Assigned by the store on the first connect; unique.
    pub player_id: u32,
    /// Empty until the player enters the game.
    pub display_name: String,
}

/// What a [`Player`] row says.
pub struct PlayerView {
    pub identity: Identity,
    pub player_id: u32,
    pub display_name: Seq<char>,
}

impl View for Player {
    type V = PlayerView;

    open spec fn view(&self) -> PlayerView {
        PlayerView {
            identity: self.identity,
            player_id: self.player_id,
            display_name: self.display_name@,
        }
    }
}

impl Row for Player {
    type Key = Identity;

    open spec fn key_of(v: PlayerView) -> Identity {
        v.identity
    }

    fn has_key(&self, key: &Identity) -> (b: bool) {
        self.identity == *key
    }
}

/// A playable character. It is stored among the online characters while its
/// owner is connected and among the offline characters otherwise.
#[derive(Clone, Debug, PartialEq, Eq)]
pub struct PlayerCharacter {
    /// The primary key, assigned by the store.
    pub character_id: u32,
    /// The `player_id` of the owner.
    pub player_id: u32,
    /// The `entity_id` of the world entity that stands for this character.
    pub entity_id: u32,
    pub display_name: String,
    /// Where the owner's client wants the character to be.
    pub transform: Transform,
    /// True until the owner's client reports that it shows the character.
    pub needs_spawn: bool,
}

/// What a [`PlayerCharacter`] row says.
pub struct PlayerCharacterView {
    pub character_id: u32,
    pub player_id: u32,
    pub entity_id: u32,
    pub display_name: Seq<char>,
    pub transform: Transform,
    pub needs_spawn: bool,
}

impl View for PlayerCharacter {
    type V = PlayerCharacterView;

    open spec fn view(&self) -> PlayerCharacterView {
        PlayerCharacterView {
            character_id: self.character_id,
            player_id: self.player_id,
            entity_id: self.entity_id,
            display_name: self.display_name@,
            transform: self.transform,
            needs_spawn: self.needs_spawn,
        }
    }
}

impl Row for PlayerCharacter {
    type Key = u32;

    open spec fn key_of(v: PlayerCharacterView) -> u32 {
        v.character_id
    }

    fn has_key(&self, key: &u32) -> (b: bool) {
        self.character_id == *key
    }
}

/// Creates a new entity of type `"player_pawn"` at `position` and a new
/// online character of `player_id` bound to it, at the same pose, without a
/// name and still to be spawned by the client. Both get the next id of
/// their sequence. Returns the entity.
///
/// Nothing limits how many characters a player has. The one refusal is
/// `ConflictError`, when a sequence has no id left.
pub fn spawn_player_character_at(
    db: &mut Database,
    player_id: u32,
    position: Transform,
) -> (created: Result<Entity, ReducerError>)
    requires
        old(db).wf(),
    ensures
        final(db).wf(),
        match old(db)@.spawn_player_character_at(player_id, position) {
            Ok(next) => {
                &&& final(db)@ == next
                &&& created is Ok
                &&& created->Ok_0@ == old(db)@.next_entity(position)
            },
            Err(e) => final(db)@ == old(db)@ && created == Err::<Entity, ReducerError>(e),
        },
{
    if db.last_entity_id == u32::MAX || db.last_character_id == u32::MAX {
        return Err(ReducerError::ConflictError);
    }
    let entity_id: u32 = db.last_entity_id + 1;
    let character_id: u32 = db.last_character_id + 1;
    db.entities.insert(
        Entity { entity_id, entity_type: "player_pawn".to_owned(), transform: position },
    );
    db.player_characters.insert(
        PlayerCharacter {
            character_id,
            player_id,
            entity_id,
            display_name: String::new(),
            transform: position,
            needs_spawn: true,
        },
    );
    db.last_entity_id = entity_id;
    db.last_character_id = character_id;
    proof {
        lemma_event_keeps_wf(old(db)@, Event::SpawnPlayerCharacterAt { player_id, position });
        assert(db@ =~= old(db)@.with_spawn(player_id, position));
    }
    Ok(Entity { entity_id, entity_type: "player_pawn".to_owned(), transform: position })
}

/// Creates a character of `player_id` at the default pose: the origin raised
/// by one hundred units, with zero orientation.
pub fn spawn_player_initial_player_character(
    db: &mut Database,
    player_id: u32,
) -> (created: Result<Entity, ReducerError>)
    requires
        old(db).wf(),
    ensures
        final(db).wf(),
        match old(db)@.spawn_player_initial_player_character(player_id) {
            Ok(next) => {
                &&& final(db)@ == next
                &&& created is Ok
                &&& created->Ok_0@ == old(db)@.next_entity(Transform::default_spawn())
            },
            Err(e) => final(db)@ == old(db)@ && created == Err::<Entity, ReducerError>(e),
        },
{
    let position = Transform {
        x: ZERO_BITS,
        y: ZERO_BITS,
        z: HUNDRED_BITS,
        yaw: ZERO_BITS,
        pitch: ZERO_BITS,
        roll: ZERO_BITS,
    };
    spawn_player_character_at(db, player_id, position)
}

/// The online player `sender` takes the display name `name` and gets one
/// more character at the default pose.
///
/// Refused with `PlayerNotFound` when `sender` is not online, and with
/// `ConflictError` when a sequence has no id left for the character; the
/// name is then not changed either.
pub fn enter_game(
    db: &mut Database,
    sender: Identity,
    name: String,
) -> (outcome: Result<(), ReducerError>)
    requires
        old(db).wf(),
    ensures
        final(db).wf(),
        match old(db)@.enter_game(sender, name@) {
            Ok(next) => final(db)@ == next && outcome is Ok,
            Err(e) => final(db)@ == old(db)@ && outcome == Err::<(), ReducerError>(e),
        },
{
    let at = match db.players.position(&sender) {
        Some(at) => at,
        None => {
            return Err(ReducerError::PlayerNotFound);
        },
    };
    if db.last_entity_id == u32::MAX || db.last_character_id == u32::MAX {
        return Err(ReducerError::ConflictError);
    }
    let player_id = db.players.row(at).player_id;
    let ghost name_view = name@;
    db.players.replace_at(at, Player { identity: sender, player_id, display_name: name });
    proof {
        lemma_name_keeps_wf(old(db)@, sender, name_view);
        assert(db@ =~= old(db)@.with_name(sender, name_view));
    }
    let _ = spawn_player_initial_player_character(db, player_id);
    Ok(())
}

/// The online player `sender` gets one more character at the default pose.
/// The characters that it has already are neither removed nor counted, so a
/// player can have several live characters at once.
///
/// Refused with `PlayerNotFound` when `sender` is not online, and with
/// `ConflictError` when a sequence has no id left for the character.
pub fn respawn(db: &mut Database, sender: Identity) -> (outcome: Result<(), ReducerError>)
    requires
        old(db).wf(),
    ensures
        final(db).wf(),
        match old(db)@.respawn(sender) {
            Ok(next) => final(db)@ == next && outcome is Ok,
            Err(e) => final(db)@ == old(db)@ && outcome == Err::<(), ReducerError>(e),
        },
{
    let player_id = match db.players.get(&sender) {
        Some(player) => player.player_id,
        None => {
            return Err(ReducerError::PlayerNotFound);
        },
    };
    match spawn_player_initial_player_character(db, player_id) {
        Ok(_) => Ok(()),
        Err(e) => Err(e),
    }
}

/// Every online character of the online player `sender` is told to be at
/// `new_transform`: all of them, not one, and without any check of the pose.
/// The entities follow at the next tick.
///
/// Refused with `PlayerNotFound` when `sender` is not online.
pub fn update_player_input(
    db: &mut Database,
    sender: Identity,
    new_transform: Transform,
) -> (outcome: Result<(), ReducerError>)
    requires
        old(db).wf(),
    ensures
        final(db).wf(),
        match old(db)@.update_player_input(sender, new_transform) {
            Ok(next) => final(db)@ == next && outcome is Ok,
            Err(e) => final(db)@ == old(db)@ && outcome == Err::<(), ReducerError>(e),
        },
{
    proof {
        lemma_event_keeps_wf(old(db)@, Event::UpdatePlayerInput { sender, new_transform });
    }
    let player_id = match db.players.get(&sender) {
        Some(player) => player.player_id,
        None => {
            return Err(ReducerError::PlayerNotFound);
        },
    };
    let ghost online = db@.player_characters;
    let mut i: usize = 0;
    while i < db.player_characters.len()
        invariant
            db.tables_wf(),
            online == old(db)@.player_characters,
            db@ == (DatabaseView { player_characters: db@.player_characters, ..old(db)@ }),
            i <= db.player_characters.rows().len(),
            forall|j: int|
                0 <= j < i ==> {
                    let row = #[trigger] db.player_characters.rows()[j];
                    row.player_id == player_id ==> row.transform == new_transform
                },
            forall|c: u32| #[trigger]
                db@.player_characters.contains_key(c) <==> online.contains_key(c),
            forall|c: u32| #[trigger]
                db@.player_characters.contains_key(c) ==> db@.player_characters[c] == online[c]
                    || (online[c].player_id == player_id && db@.player_characters[c] == (
                PlayerCharacterView { transform: new_transform, ..online[c] })),
        decreases db.player_characters.rows().len() - i,
    {
        let row = db.player_characters.row(i);
        if row.player_id == player_id {
            let moved = PlayerCharacter {
                character_id: row.character_id,
                player_id: row.player_id,
                entity_id: row.entity_id,
                display_name: row.display_name.clone(),
                transform: new_transform,
                needs_spawn: row.needs_spawn,
            };
            db.player_characters.replace_at(i, moved);
        }
        i += 1;
    }
    proof {
        db.player_characters.lemma_scan_covers_view();
        let expected = old(db)@.with_input(player_id, new_transform).player_characters;
        assert forall|c: u32| #[trigger]
            db@.player_characters.contains_key(c) implies db@.player_characters[c]
            == expected[c] by {
            let j = choose|j: int|
                0 <= j < db.player_characters.rows().len()
                    && #[trigger] db.player_characters.rows()[j] == db.player_characters@[c];
            let row = db.player_characters.rows()[j];
            assert(row.player_id == player_id ==> row.transform == new_transform);
        }
        assert(db@.player_characters =~= expected);
    }
    Ok(())
}

/// The client acknowledges that it shows the online character
/// `character_id`: the character no longer needs to be spawned. To
/// acknowledge it again changes nothing and is no error.
///
/// Refused with `CharacterNotFound` when no online character has that id.
pub fn player_spawned(db: &mut Database, character_id: u32) -> (outcome: Result<(), ReducerError>)
    requires
        old(db).wf(),
    ensures
        final(db).wf(),
        match old(db)@.player_spawned(character_id) {
            Ok(next) => final(db)@ == next && outcome is Ok,
            Err(e) => final(db)@ == old(db)@ && outcome == Err::<(), ReducerError>(e),
        },
{
    proof {
        lemma_event_keeps_wf(old(db)@, Event::PlayerSpawned { character_id });
    }
    let at = match db.player_characters.position(&character_id) {
        Some(at) => at,
        None => {
            return Err(ReducerError::CharacterNotFound);
        },
    };
    let row = db.player_characters.row(at);
    let shown = PlayerCharacter {
        character_id: row.character_id,
        player_id: row.player_id,
        entity_id: row.entity_id,
        display_name: row.display_name.clone(),
        transform: row.transform,
        needs_spawn: false,
    };
    db.player_characters.replace_at(at, shown);
    assert(db@ =~= old(db)@.player_spawned(character_id)->Ok_0);
    Ok(())
}

} // verus!
