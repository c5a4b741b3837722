use game_server::{
    connect, disconnect, enter_game, init, move_all_players, respawn, Database, Identity,
    MoveAllPlayersTimer, ReducerError, ScheduleAt, Transform,
};

fn alice() -> Identity {
    Identity { hi: 0, lo: 1 }
}

fn bob() -> Identity {
    Identity { hi: 7, lo: 1 }
}

fn default_pose() -> Transform {
    Transform {
        x: 0.0f32.to_bits(),
        y: 0.0f32.to_bits(),
        z: 100.0f32.to_bits(),
        yaw: 0.0f32.to_bits(),
        pitch: 0.0f32.to_bits(),
        roll: 0.0f32.to_bits(),
    }
}

fn tick(db: &mut Database) -> Result<(), ReducerError> {
    let timer = MoveAllPlayersTimer { scheduled_id: 1, scheduled_at: ScheduleAt::Interval(50_000) };
    move_all_players(db, timer)
}

#[test]
fn init_stores_the_default_cadence() {
    let mut db = Database::new();
    assert_eq!(db.move_all_players_timer(), None);
    assert_eq!(init(&mut db), Ok(()));
    assert_eq!(
        db.move_all_players_timer(),
        Some(MoveAllPlayersTimer { scheduled_id: 1, scheduled_at: ScheduleAt::Interval(50_000) })
    );
}

#[test]
fn init_twice_is_a_conflict_and_changes_nothing() {
    let mut db = Database::new();
    assert_eq!(init(&mut db), Ok(()));
    let before = db.clone();
    assert_eq!(init(&mut db), Err(ReducerError::ConflictError));
    assert_eq!(db, before);
}

#[test]
fn first_connect_creates_player_character_and_entity() {
    let mut db = Database::new();
    assert_eq!(connect(&mut db, alice()), Ok(()));

    assert_eq!(db.players().len(), 1);
    assert_eq!(db.offline_players().len(), 0);
    let player = db.players().get(&alice()).expect("alice is online");
    assert_eq!(player.identity, alice());
    assert_eq!(player.player_id, 1);
    assert_eq!(player.display_name, "");

    assert_eq!(db.player_characters().len(), 1);
    assert_eq!(db.offline_player_characters().len(), 0);
    let character = db.player_characters().row(0);
    assert_eq!(character.character_id, 1);
    assert_eq!(character.player_id, 1);
    assert_eq!(character.display_name, "");
    assert_eq!(character.transform, default_pose());
    assert!(character.needs_spawn);

    assert_eq!(db.entities().len(), 1);
    let entity = db.entities().get(&character.entity_id).expect("the pawn is live");
    assert_eq!(entity.entity_id, 1);
    assert_eq!(entity.entity_type, "player_pawn");
    assert_eq!(entity.transform, default_pose());
}

#[test]
fn default_pose_is_the_origin_raised_by_one_hundred() {
    let mut db = Database::new();
    connect(&mut db, alice()).unwrap();
    let pose = db.player_characters().row(0).transform;
    assert_eq!(f32::from_bits(pose.x), 0.0);
    assert_eq!(f32::from_bits(pose.y), 0.0);
    assert_eq!(f32::from_bits(pose.z), 100.0);
    assert_eq!(f32::from_bits(pose.yaw), 0.0);
    assert_eq!(f32::from_bits(pose.pitch), 0.0);
    assert_eq!(f32::from_bits(pose.roll), 0.0);
    assert_eq!(pose.z, 0x42C8_0000);
}

#[test]
fn player_ids_are_assigned_in_sequence() {
    let mut db = Database::new();
    connect(&mut db, alice()).unwrap();
    connect(&mut db, bob()).unwrap();
    assert_eq!(db.players().get(&alice()).unwrap().player_id, 1);
    assert_eq!(db.players().get(&bob()).unwrap().player_id, 2);
    assert_eq!(db.player_characters().get(&1).unwrap().player_id, 1);
    assert_eq!(db.player_characters().get(&2).unwrap().player_id, 2);
    assert_eq!(db.player_characters().get(&1).unwrap().entity_id, 1);
    assert_eq!(db.player_characters().get(&2).unwrap().entity_id, 2);
}

#[test]
fn connect_while_online_is_a_conflict_and_changes_nothing() {
    let mut db = Database::new();
    connect(&mut db, alice()).unwrap();
    let before = db.clone();
    assert_eq!(connect(&mut db, alice()), Err(ReducerError::ConflictError));
    assert_eq!(db, before);
}

#[test]
fn disconnect_moves_rows_offline_and_deletes_entities() {
    let mut db = Database::new();
    connect(&mut db, alice()).unwrap();
    respawn(&mut db, alice()).unwrap();
    connect(&mut db, bob()).unwrap();
    assert_eq!(db.entities().len(), 3);

    assert_eq!(disconnect(&mut db, alice()), Ok(()));

    assert!(db.players().get(&alice()).is_none());
    let player = db.offline_players().get(&alice()).expect("alice is offline");
    assert_eq!(player.player_id, 1);

    assert!(db.player_characters().get(&1).is_none());
    assert!(db.player_characters().get(&2).is_none());
    assert_eq!(db.offline_player_characters().get(&1).unwrap().player_id, 1);
    assert_eq!(db.offline_player_characters().get(&2).unwrap().player_id, 1);
    assert!(db.entities().get(&1).is_none());
    assert!(db.entities().get(&2).is_none());

    // bob is untouched
    assert!(db.players().get(&bob()).is_some());
    assert_eq!(db.player_characters().len(), 1);
    assert_eq!(db.player_characters().get(&3).unwrap().player_id, 2);
    assert_eq!(db.entities().len(), 1);
    assert!(db.entities().get(&3).is_some());

    // a tick no longer touches the characters that went offline
    let before = db.clone();
    assert_eq!(tick(&mut db), Ok(()));
    assert_eq!(db.offline_player_characters(), before.offline_player_characters());
    assert!(db.entities().get(&1).is_none());
    assert!(db.entities().get(&2).is_none());
    assert_eq!(db.entities().len(), 1);
}

#[test]
fn second_disconnect_fails_and_changes_nothing() {
    let mut db = Database::new();
    connect(&mut db, alice()).unwrap();
    assert_eq!(disconnect(&mut db, alice()), Ok(()));
    let before = db.clone();
    assert_eq!(disconnect(&mut db, alice()), Err(ReducerError::PlayerNotFound));
    assert_eq!(db, before);
}

#[test]
fn disconnect_of_an_unknown_identity_is_player_not_found() {
    let mut db = Database::new();
    connect(&mut db, alice()).unwrap();
    let before = db.clone();
    assert_eq!(disconnect(&mut db, bob()), Err(ReducerError::PlayerNotFound));
    assert_eq!(db, before);
}

#[test]
fn disconnect_with_a_missing_entity_is_refused_whole() {
    let mut db = Database::new();
    connect(&mut db, alice()).unwrap();
    respawn(&mut db, alice()).unwrap();
    // the entity of the second character goes away out of band
    assert!(db.delete_entity(2));
    let before = db.clone();

    assert_eq!(disconnect(&mut db, alice()), Err(ReducerError::EntityNotFound));

    // no partial disconnect: alice is online, and so is the first character,
    // whose entity is live still
    assert_eq!(db, before);
    assert!(db.players().get(&alice()).is_some());
    assert!(db.player_characters().get(&1).is_some());
    assert!(db.player_characters().get(&2).is_some());
    assert!(db.entities().get(&1).is_some());
    assert_eq!(db.offline_player_characters().len(), 0);
}

#[test]
fn reconnect_restores_player_and_characters_without_entities() {
    let mut db = Database::new();
    connect(&mut db, alice()).unwrap();
    enter_game(&mut db, alice(), String::from("Alice")).unwrap();
    disconnect(&mut db, alice()).unwrap();
    assert_eq!(db.entities().len(), 0);

    assert_eq!(connect(&mut db, alice()), Ok(()));

    let player = db.players().get(&alice()).expect("alice is online again");
    assert_eq!(player.player_id, 1);
    assert_eq!(player.display_name, "Alice");
    assert_eq!(db.offline_players().len(), 0);
    assert_eq!(db.player_characters().len(), 2);
    assert_eq!(db.offline_player_characters().len(), 0);
    assert_eq!(db.player_characters().get(&1).unwrap().entity_id, 1);
    assert_eq!(db.player_characters().get(&2).unwrap().entity_id, 2);
    // no new character, no new entity
    assert_eq!(db.entities().len(), 0);
    assert!(db.player_characters().get(&3).is_none());
}

#[test]
fn reconnect_keeps_the_characters_of_others_offline() {
    let mut db = Database::new();
    connect(&mut db, alice()).unwrap();
    connect(&mut db, bob()).unwrap();
    disconnect(&mut db, alice()).unwrap();
    disconnect(&mut db, bob()).unwrap();

    connect(&mut db, bob()).unwrap();

    assert!(db.players().get(&bob()).is_some());
    assert!(db.offline_players().get(&alice()).is_some());
    assert_eq!(db.player_characters().len(), 1);
    assert_eq!(db.player_characters().get(&2).unwrap().player_id, 2);
    assert_eq!(db.offline_player_characters().len(), 1);
    assert_eq!(db.offline_player_characters().get(&1).unwrap().player_id, 1);
}

#[test]
fn disconnect_after_a_return_finds_no_entity() {
    let mut db = Database::new();
    connect(&mut db, alice()).unwrap();
    disconnect(&mut db, alice()).unwrap();
    connect(&mut db, alice()).unwrap();
    let before = db.clone();
    assert_eq!(disconnect(&mut db, alice()), Err(ReducerError::EntityNotFound));
    assert_eq!(db, before);
}

#[test]
fn every_player_is_in_exactly_one_set_along_a_run() {
    let mut db = Database::new();
    let ids = [alice(), bob(), Identity { hi: u128::MAX, lo: u128::MAX }];
    let mut seen: Vec<Identity> = Vec::new();
    let steps: [(usize, bool); 10] = [
        (0, true),
        (1, true),
        (0, false),
        (0, false),
        (2, true),
        (1, false),
        (0, true),
        (2, true),
        (1, true),
        (2, false),
    ];
    for (who, start) in steps {
        let id = ids[who];
        let outcome = if start { connect(&mut db, id) } else { disconnect(&mut db, id) };
        if start && outcome.is_ok() && !seen.contains(&id) {
            seen.push(id);
        }
        for known in &seen {
            let online = db.players().contains_key(known);
            let offline = db.offline_players().contains_key(known);
            assert!(online != offline);
        }
        for c in 1..=3u32 {
            let online = db.player_characters().contains_key(&c);
            let offline = db.offline_player_characters().contains_key(&c);
            assert!(!(online && offline));
            if c <= db.player_characters().len() as u32 + db.offline_player_characters().len() as u32
            {
                assert!(online != offline);
            }
        }
    }
    assert_eq!(seen.len(), 3);
}
