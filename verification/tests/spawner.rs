use game_server::{
    connect, disconnect, enter_game, player_spawned, respawn, spawn_player_character_at,
    spawn_player_initial_player_character, Database, Entity, Identity, ReducerError, Transform,
};

fn carol() -> Identity {
    Identity { hi: 1, lo: 2 }
}

fn dave() -> Identity {
    Identity { hi: 2, lo: 1 }
}

fn pose(x: f32, y: f32, z: f32, yaw: f32, pitch: f32, roll: f32) -> Transform {
    Transform {
        x: x.to_bits(),
        y: y.to_bits(),
        z: z.to_bits(),
        yaw: yaw.to_bits(),
        pitch: pitch.to_bits(),
        roll: roll.to_bits(),
    }
}

#[test]
fn spawn_at_creates_a_pawn_and_a_character_bound_to_it() {
    let mut db = Database::new();
    let at = pose(1.5, -2.0, 3.25, 90.0, 0.0, -45.0);
    let entity = spawn_player_character_at(&mut db, 9, at).expect("ids are left");
    assert_eq!(
        entity,
        Entity { entity_id: 1, entity_type: String::from("player_pawn"), transform: at }
    );
    assert_eq!(db.entities().get(&1), Some(&entity));
    let character = db.player_characters().get(&1).expect("the character is online");
    assert_eq!(character.character_id, 1);
    assert_eq!(character.player_id, 9);
    assert_eq!(character.entity_id, 1);
    assert_eq!(character.display_name, "");
    assert_eq!(character.transform, at);
    assert!(character.needs_spawn);
    assert_eq!(db.players().len(), 0);
    assert_eq!(db.offline_player_characters().len(), 0);
}

#[test]
fn spawn_ids_count_up() {
    let mut db = Database::new();
    let first = spawn_player_character_at(&mut db, 1, pose(0.0, 0.0, 0.0, 0.0, 0.0, 0.0)).unwrap();
    let second = spawn_player_character_at(&mut db, 1, pose(1.0, 0.0, 0.0, 0.0, 0.0, 0.0)).unwrap();
    let third = spawn_player_initial_player_character(&mut db, 2).unwrap();
    assert_eq!(first.entity_id, 1);
    assert_eq!(second.entity_id, 2);
    assert_eq!(third.entity_id, 3);
    assert_eq!(third.transform, pose(0.0, 0.0, 100.0, 0.0, 0.0, 0.0));
    assert_eq!(db.player_characters().get(&3).unwrap().entity_id, 3);
    assert_eq!(db.player_characters().get(&3).unwrap().player_id, 2);
    assert_eq!(db.player_characters().len(), 3);
    assert_eq!(db.entities().len(), 3);
}

#[test]
fn ids_are_not_used_again_after_a_disconnect() {
    let mut db = Database::new();
    connect(&mut db, carol()).unwrap();
    disconnect(&mut db, carol()).unwrap();
    connect(&mut db, dave()).unwrap();
    let character = db.player_characters().row(0);
    assert_eq!(character.character_id, 2);
    assert_eq!(character.entity_id, 2);
    assert_eq!(character.player_id, 2);
    assert!(db.entities().get(&1).is_none());
}

#[test]
fn a_new_player_whose_id_owns_a_character_gets_no_second_one() {
    let mut db = Database::new();
    spawn_player_character_at(&mut db, 1, pose(5.0, 5.0, 5.0, 0.0, 0.0, 0.0)).unwrap();
    connect(&mut db, carol()).unwrap();
    assert_eq!(db.players().get(&carol()).unwrap().player_id, 1);
    assert_eq!(db.player_characters().len(), 1);
    assert_eq!(db.entities().len(), 1);
}

#[test]
fn enter_game_names_the_player_and_spawns_a_character() {
    let mut db = Database::new();
    connect(&mut db, carol()).unwrap();
    assert_eq!(enter_game(&mut db, carol(), String::from("Carol")), Ok(()));
    let player = db.players().get(&carol()).unwrap();
    assert_eq!(player.display_name, "Carol");
    assert_eq!(player.player_id, 1);
    assert_eq!(db.player_characters().len(), 2);
    let character = db.player_characters().get(&2).unwrap();
    assert_eq!(character.player_id, 1);
    assert_eq!(character.entity_id, 2);
    assert_eq!(character.transform, pose(0.0, 0.0, 100.0, 0.0, 0.0, 0.0));
    assert!(character.needs_spawn);
    assert_eq!(db.entities().get(&2).unwrap().entity_type, "player_pawn");
}

#[test]
fn enter_game_without_a_session_is_player_not_found() {
    let mut db = Database::new();
    connect(&mut db, carol()).unwrap();
    disconnect(&mut db, carol()).unwrap();
    let before = db.clone();
    assert_eq!(
        enter_game(&mut db, carol(), String::from("Carol")),
        Err(ReducerError::PlayerNotFound)
    );
    assert_eq!(enter_game(&mut db, dave(), String::new()), Err(ReducerError::PlayerNotFound));
    assert_eq!(db, before);
}

#[test]
fn respawn_adds_a_character_and_keeps_the_others() {
    let mut db = Database::new();
    connect(&mut db, carol()).unwrap();
    assert_eq!(respawn(&mut db, carol()), Ok(()));
    assert_eq!(respawn(&mut db, carol()), Ok(()));
    assert_eq!(db.player_characters().len(), 3);
    assert_eq!(db.entities().len(), 3);
    for id in 1..=3u32 {
        let character = db.player_characters().get(&id).unwrap();
        assert_eq!(character.player_id, 1);
        assert_eq!(character.entity_id, id);
        assert!(db.entities().get(&id).is_some());
    }
}

#[test]
fn respawn_without_a_session_is_player_not_found() {
    let mut db = Database::new();
    let before = db.clone();
    assert_eq!(respawn(&mut db, carol()), Err(ReducerError::PlayerNotFound));
    assert_eq!(db, before);
}

#[test]
fn player_spawned_twice_succeeds_twice() {
    let mut db = Database::new();
    connect(&mut db, carol()).unwrap();
    assert!(db.player_characters().get(&1).unwrap().needs_spawn);
    assert_eq!(player_spawned(&mut db, 1), Ok(()));
    assert!(!db.player_characters().get(&1).unwrap().needs_spawn);
    let once = db.clone();
    assert_eq!(player_spawned(&mut db, 1), Ok(()));
    assert!(!db.player_characters().get(&1).unwrap().needs_spawn);
    assert_eq!(db, once);
}

#[test]
fn player_spawned_changes_nothing_else() {
    let mut db = Database::new();
    connect(&mut db, carol()).unwrap();
    respawn(&mut db, carol()).unwrap();
    let before = db.clone();
    player_spawned(&mut db, 2).unwrap();
    assert_eq!(db.player_characters().get(&1), before.player_characters().get(&1));
    let shown = db.player_characters().get(&2).unwrap();
    let was = before.player_characters().get(&2).unwrap();
    assert_eq!(shown.character_id, was.character_id);
    assert_eq!(shown.player_id, was.player_id);
    assert_eq!(shown.entity_id, was.entity_id);
    assert_eq!(shown.display_name, was.display_name);
    assert_eq!(shown.transform, was.transform);
    assert_eq!(db.entities(), before.entities());
    assert_eq!(db.players(), before.players());
}

#[test]
fn player_spawned_of_an_unknown_character_is_character_not_found() {
    let mut db = Database::new();
    connect(&mut db, carol()).unwrap();
    let before = db.clone();
    assert_eq!(player_spawned(&mut db, 2), Err(ReducerError::CharacterNotFound));
    assert_eq!(player_spawned(&mut db, 0), Err(ReducerError::CharacterNotFound));
    assert_eq!(db, before);
}

#[test]
fn player_spawned_of_an_offline_character_is_character_not_found() {
    let mut db = Database::new();
    connect(&mut db, carol()).unwrap();
    disconnect(&mut db, carol()).unwrap();
    let before = db.clone();
    assert_eq!(player_spawned(&mut db, 1), Err(ReducerError::CharacterNotFound));
    assert_eq!(db, before);
}

#[test]
fn characters_of_lists_the_online_characters_of_one_player() {
    fn sorted(mut ids: Vec<u32>) -> Vec<u32> {
        ids.sort();
        ids
    }
    let mut db = Database::new();
    assert_eq!(db.characters_of(1), Vec::<u32>::new());
    connect(&mut db, carol()).unwrap();
    connect(&mut db, dave()).unwrap();
    respawn(&mut db, carol()).unwrap();
    respawn(&mut db, dave()).unwrap();
    respawn(&mut db, carol()).unwrap();
    assert_eq!(sorted(db.characters_of(1)), vec![1, 3, 5]);
    assert_eq!(sorted(db.characters_of(2)), vec![2, 4]);
    assert_eq!(db.characters_of(3), Vec::<u32>::new());
    disconnect(&mut db, carol()).unwrap();
    assert_eq!(db.characters_of(1), Vec::<u32>::new());
    assert_eq!(sorted(db.characters_of(2)), vec![2, 4]);
}

#[test]
fn error_messages() {
    assert_eq!(ReducerError::PlayerNotFound.message(), "Player not found");
    assert_eq!(ReducerError::EntityNotFound.message(), "Entity not found");
    assert_eq!(ReducerError::CharacterNotFound.message(), "Character not found");
    assert_eq!(ReducerError::ConflictError.message(), "Conflict");
}
