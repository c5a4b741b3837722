use game_server::{
    connect, default_move_all_players_interval, disconnect, enter_game, move_all_players,
    player_spawned, respawn, update_player_input, Database, Identity, Transform,
};

fn gina() -> Identity {
    Identity { hi: 3, lo: 0 }
}

fn hugo() -> Identity {
    Identity { hi: 0, lo: 3 }
}

fn somewhere() -> Transform {
    Transform {
        x: 12.5f32.to_bits(),
        y: (-3.0f32).to_bits(),
        z: 40.0f32.to_bits(),
        yaw: 180.0f32.to_bits(),
        pitch: 0.0f32.to_bits(),
        roll: 0.0f32.to_bits(),
    }
}

fn assert_sets_are_disjoint(db: &Database) {
    for i in 0..db.players().len() {
        assert!(!db.offline_players().contains_key(&db.players().row(i).identity));
    }
    for i in 0..db.player_characters().len() {
        let id = db.player_characters().row(i).character_id;
        assert!(!db.offline_player_characters().contains_key(&id));
    }
}

fn assert_ids_are_unique(db: &Database) {
    let mut player_ids: Vec<u32> = Vec::new();
    for i in 0..db.players().len() {
        player_ids.push(db.players().row(i).player_id);
    }
    for i in 0..db.offline_players().len() {
        player_ids.push(db.offline_players().row(i).player_id);
    }
    let mut entity_ids: Vec<u32> = Vec::new();
    for i in 0..db.player_characters().len() {
        entity_ids.push(db.player_characters().row(i).entity_id);
    }
    for i in 0..db.offline_player_characters().len() {
        entity_ids.push(db.offline_player_characters().row(i).entity_id);
    }
    for ids in [player_ids, entity_ids] {
        for a in 0..ids.len() {
            for b in 0..a {
                assert_ne!(ids[a], ids[b]);
            }
        }
    }
}

fn assert_offline_characters_have_no_entity(db: &Database) {
    for i in 0..db.offline_player_characters().len() {
        let bound = db.offline_player_characters().row(i).entity_id;
        assert!(!db.entities().contains_key(&bound));
    }
}

fn assert_online_characters_are_bound(db: &Database) {
    for i in 0..db.player_characters().len() {
        let bound = db.player_characters().row(i).entity_id;
        assert!(db.entities().contains_key(&bound));
    }
}

fn assert_characters_are_where_their_owners_are(db: &Database) {
    for i in 0..db.player_characters().len() {
        let owner = db.player_characters().row(i).player_id;
        assert!((0..db.players().len()).any(|p| db.players().row(p).player_id == owner));
    }
    for i in 0..db.offline_player_characters().len() {
        let owner = db.offline_player_characters().row(i).player_id;
        assert!(
            (0..db.offline_players().len()).any(|p| db.offline_players().row(p).player_id == owner)
        );
    }
}

#[test]
fn a_run_without_returns_keeps_every_online_character_bound() {
    let mut db = Database::new();
    let mut step = 0;
    let mut check = |db: &Database| {
        step += 1;
        assert_sets_are_disjoint(db);
        assert_ids_are_unique(db);
        assert_offline_characters_have_no_entity(db);
        assert_online_characters_are_bound(db);
        assert_characters_are_where_their_owners_are(db);
    };
    connect(&mut db, gina()).unwrap();
    check(&db);
    enter_game(&mut db, gina(), String::from("Gina")).unwrap();
    check(&db);
    connect(&mut db, hugo()).unwrap();
    check(&db);
    respawn(&mut db, hugo()).unwrap();
    check(&db);
    update_player_input(&mut db, gina(), somewhere()).unwrap();
    check(&db);
    move_all_players(&mut db, default_move_all_players_interval()).unwrap();
    check(&db);
    player_spawned(&mut db, 3).unwrap();
    check(&db);
    disconnect(&mut db, gina()).unwrap();
    check(&db);
    assert!(disconnect(&mut db, gina()).is_err());
    check(&db);
    move_all_players(&mut db, default_move_all_players_interval()).unwrap();
    check(&db);
    disconnect(&mut db, hugo()).unwrap();
    check(&db);
    assert_eq!(step, 11);
    assert_eq!(db.entities().len(), 0);
    assert_eq!(db.offline_player_characters().len(), 4);
}

#[test]
fn a_return_brings_characters_online_without_entities() {
    let mut db = Database::new();
    connect(&mut db, gina()).unwrap();
    disconnect(&mut db, gina()).unwrap();
    connect(&mut db, gina()).unwrap();
    // everything else still holds
    assert_sets_are_disjoint(&db);
    assert_ids_are_unique(&db);
    assert_offline_characters_have_no_entity(&db);
    assert_characters_are_where_their_owners_are(&db);
    // but the character that came back has no entity
    let character = db.player_characters().get(&1).expect("the character is online");
    assert!(!db.entities().contains_key(&character.entity_id));
    // and a tick does not make one
    move_all_players(&mut db, default_move_all_players_interval()).unwrap();
    assert_eq!(db.entities().len(), 0);
}

#[test]
fn a_failed_operation_changes_nothing() {
    let mut db = Database::new();
    connect(&mut db, gina()).unwrap();
    respawn(&mut db, gina()).unwrap();
    update_player_input(&mut db, gina(), somewhere()).unwrap();
    let before = db.clone();
    assert!(connect(&mut db, gina()).is_err());
    assert!(disconnect(&mut db, hugo()).is_err());
    assert!(enter_game(&mut db, hugo(), String::from("Hugo")).is_err());
    assert!(respawn(&mut db, hugo()).is_err());
    assert!(update_player_input(&mut db, hugo(), somewhere()).is_err());
    assert!(player_spawned(&mut db, 77).is_err());
    assert_eq!(db, before);
}
