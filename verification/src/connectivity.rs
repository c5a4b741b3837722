//! The session manager: what happens when the system starts, and when a
//! client's session starts or ends.

use vstd::prelude::*;
use crate::database::Database;
use crate::error::ReducerError;
use crate::laws::{lemma_event_keeps_wf, lemma_new_player_keeps_wf};
use crate::model::{not_owned_by, owned_by, DatabaseView, Event};
use crate::players::{spawn_player_initial_player_character, Player};
use crate::timers::{default_move_all_players_interval, MoveAllPlayersTimer};
use crate::types::Identity;

verus! {

/// Stores the cadence record, due every fifty milliseconds, so that the
/// scheduler knows when to move the entities.
///
/// Meant to be called once, when the system starts: it is refused with
/// `ConflictError` when the record is stored already.
pub fn init(db: &mut Database) -> (outcome: Result<(), ReducerError>)
    requires
        old(db).wf(),
    ensures
        final(db).wf(),
        match old(db)@.init() {
            Ok(next) => final(db)@ == next && outcome is Ok,
            Err(e) => final(db)@ == old(db)@ && outcome == Err::<(), ReducerError>(e),
        },
{
    if db.move_all_players_timer.is_some() {
        return Err(ReducerError::ConflictError);
    }
    let timer = default_move_all_players_interval();
    db.move_all_players_timer = Some(
        MoveAllPlayersTimer { scheduled_id: 1, scheduled_at: timer.scheduled_at },
    );
    proof {
        lemma_event_keeps_wf(old(db)@, Event::Init);
        assert(db@ =~= old(db)@.init()->Ok_0);
    }
    Ok(())
}

/// Moves every offline character of `player_id` to the online characters.
fn restore_characters(db: &mut Database, player_id: u32)
    requires
        old(db).tables_wf(),
        old(db)@.characters_wf(),
    ensures
        final(db).tables_wf(),
        final(db).offline_players == old(db).offline_players,
        final(db)@ == (DatabaseView {
            player_characters: old(db)@.player_characters.union_prefer_right(
                owned_by(old(db)@.offline_player_characters, player_id),
            ),
            offline_player_characters: not_owned_by(old(db)@.offline_player_characters, player_id),
            ..old(db)@
        }),
{
    let ghost online = db@.player_characters;
    let ghost offline = db@.offline_player_characters;
    let mut i: usize = 0;
    while i < db.offline_player_characters.len()
        invariant
            db.tables_wf(),
            db.offline_players == old(db).offline_players,
            old(db)@.characters_wf(),
            online == old(db)@.player_characters,
            offline == old(db)@.offline_player_characters,
            db@ == (DatabaseView {
                player_characters: db@.player_characters,
                offline_player_characters: db@.offline_player_characters,
                ..old(db)@
            }),
            i <= db.offline_player_characters.rows().len(),
            forall|j: int|
                0 <= j < i ==> (#[trigger] db.offline_player_characters.rows()[j]).player_id
                    != player_id,
            forall|c: u32| #[trigger]
                db@.offline_player_characters.contains_key(c) ==> offline.contains_key(c)
                    && db@.offline_player_characters[c] == offline[c],
            forall|c: u32|
                offline.contains_key(c) && offline[c].player_id != player_id
                    ==> #[trigger] db@.offline_player_characters.contains_key(c),
            forall|c: u32| #[trigger]
                db@.player_characters.contains_key(c) <==> online.contains_key(c) || (
                offline.contains_key(c) && offline[c].player_id == player_id
                    && !db@.offline_player_characters.contains_key(c)),
            forall|c: u32| #[trigger]
                db@.player_characters.contains_key(c) ==> db@.player_characters[c] == (
                if online.contains_key(c) {
                    online[c]
                } else {
                    offline[c]
                }),
        decreases db.offline_player_characters.rows().len() - i,
    {
        if db.offline_player_characters.row(i).player_id == player_id {
            let row = db.offline_player_characters.remove_at(i);
            db.player_characters.insert(row);
        } else {
            i += 1;
        }
    }
    proof {
        db.offline_player_characters.lemma_scan_covers_view();
        assert forall|c: u32| #[trigger]
            db@.offline_player_characters.contains_key(c) implies offline[c].player_id
            != player_id by {
            let j = choose|j: int|
                0 <= j < db.offline_player_characters.rows().len()
                    && #[trigger] db.offline_player_characters.rows()[j]
                    == db.offline_player_characters@[c];
            assert(db.offline_player_characters.rows()[j].player_id != player_id);
        }
        assert(db@.offline_player_characters =~= not_owned_by(offline, player_id));
        assert(db@.player_characters =~= online.union_prefer_right(owned_by(offline, player_id)));
    }
}

/// A session of `sender` starts.
///
/// Where `sender` is an offline player, its row moves to the online players
/// and each of its offline characters moves to the online characters; no
/// entity is created for them. Where `sender` has no row at all, it gets an
/// online row with the next player id and an empty name, and, unless that
/// player id already owns an online character, one character at the default
/// pose.
///
/// Refused with `ConflictError` when `sender` is online already, and when a
/// sequence has no id left for the new rows.
pub fn connect(db: &mut Database, sender: Identity) -> (outcome: Result<(), ReducerError>)
    requires
        old(db).wf(),
    ensures
        final(db).wf(),
        match old(db)@.connect(sender) {
            Ok(next) => final(db)@ == next && outcome is Ok,
            Err(e) => final(db)@ == old(db)@ && outcome == Err::<(), ReducerError>(e),
        },
{
    proof {
        lemma_event_keeps_wf(old(db)@, Event::Connect { sender });
    }
    match db.offline_players.position(&sender) {
        Some(at) => {
            let player_id = db.offline_players.row(at).player_id;
            restore_characters(db, player_id);
            let player = db.offline_players.remove_at(at);
            db.players.insert(player);
            assert(db@ =~= old(db)@.with_player_restored(sender));
            Ok(())
        },
        None => {
            if db.players.contains_key(&sender) || db.last_player_id == u32::MAX {
                return Err(ReducerError::ConflictError);
            }
            let player_id: u32 = db.last_player_id + 1;
            let existing = db.characters_of(player_id);
            let owns = existing.len() > 0;
            proof {
                let joined = old(db)@.with_new_player(sender);
                if owns {
                    assert(existing@.contains(existing@[0]));
                    assert(joined.is_online_character_of(existing@[0], player_id));
                }
                if joined.has_online_character(player_id) {
                    let c = choose|c: u32| joined.is_online_character_of(c, player_id);
                    assert(db@.is_online_character_of(c, player_id));
                    assert(existing@.contains(c));
                }
            }
            if !owns && (db.last_entity_id == u32::MAX || db.last_character_id == u32::MAX) {
                return Err(ReducerError::ConflictError);
            }
            db.players.insert(Player { identity: sender, player_id, display_name: String::new() });
            db.last_player_id = player_id;
            proof {
                lemma_new_player_keeps_wf(old(db)@, sender);
                assert(db@ =~= old(db)@.with_new_player(sender));
            }
            if !owns {
                let _ = spawn_player_initial_player_character(db, player_id);
            }
            Ok(())
        },
    }
}

/// Whether an online character of `player_id` is bound to an entity that is
/// gone.
fn has_stray_character(db: &Database, player_id: u32) -> (found: bool)
    requires
        db.tables_wf(),
    ensures
        found == db@.has_stray(player_id),
{
    let mut i: usize = 0;
    while i < db.player_characters.len()
        invariant
            db.tables_wf(),
            i <= db.player_characters.rows().len(),
            forall|j: int|
                0 <= j < i ==> {
                    let row = #[trigger] db.player_characters.rows()[j];
                    row.player_id != player_id || db@.entities.contains_key(row.entity_id)
                },
        decreases db.player_characters.rows().len() - i,
    {
        let row = db.player_characters.row(i);
        if row.player_id == player_id && !db.entities.contains_key(&row.entity_id) {
            assert(db@.is_stray_of(row.character_id, player_id));
            return true;
        }
        i += 1;
    }
    proof {
        db.player_characters.lemma_scan_covers_view();
        assert forall|c: u32| !db@.is_stray_of(c, player_id) by {
            if db@.is_stray_of(c, player_id) {
                let j = choose|j: int|
                    0 <= j < db.player_characters.rows().len()
                        && #[trigger] db.player_characters.rows()[j] == db.player_characters@[c];
                let row = db.player_characters.rows()[j];
                assert(row.player_id != player_id || db@.entities.contains_key(row.entity_id));
            }
        }
    }
    false
}

/// Moves every online character of `player_id` to the offline characters
/// and deletes the entity to which it is bound.
fn retire_characters(db: &mut Database, player_id: u32)
    requires
        old(db).tables_wf(),
        old(db)@.characters_wf(),
        !old(db)@.has_stray(player_id),
    ensures
        final(db).tables_wf(),
        final(db).players == old(db).players,
        final(db)@ == (DatabaseView {
            player_characters: not_owned_by(old(db)@.player_characters, player_id),
            offline_player_characters: old(db)@.offline_player_characters.union_prefer_right(
                owned_by(old(db)@.player_characters, player_id),
            ),
            entities: old(db)@.entities.remove_keys(old(db)@.pawns_of(player_id)),
            ..old(db)@
        }),
{
    let ghost before = db@;
    let ghost online = db@.player_characters;
    let ghost offline = db@.offline_player_characters;
    let ghost entities = db@.entities;
    proof {
        assert forall|c: u32| #[trigger]
            online.contains_key(c) && online[c].player_id == player_id
        implies entities.contains_key(online[c].entity_id) by {
            assert(!before.is_stray_of(c, player_id));
        }
    }
    let mut i: usize = 0;
    while i < db.player_characters.len()
        invariant
            db.tables_wf(),
            db.players == old(db).players,
            before == old(db)@,
            before.characters_wf(),
            !before.has_stray(player_id),
            online == before.player_characters,
            offline == before.offline_player_characters,
            entities == before.entities,
            db@ == (DatabaseView {
                player_characters: db@.player_characters,
                offline_player_characters: db@.offline_player_characters,
                entities: db@.entities,
                ..before
            }),
            i <= db.player_characters.rows().len(),
            forall|j: int|
                0 <= j < i ==> (#[trigger] db.player_characters.rows()[j]).player_id != player_id,
            forall|c: u32| #[trigger]
                db@.player_characters.contains_key(c) ==> online.contains_key(c)
                    && db@.player_characters[c] == online[c],
            forall|c: u32|
                online.contains_key(c) && online[c].player_id != player_id
                    ==> #[trigger] db@.player_characters.contains_key(c),
            forall|c: u32| #[trigger]
                db@.offline_player_characters.contains_key(c) <==> offline.contains_key(c) || (
                online.contains_key(c) && online[c].player_id == player_id
                    && !db@.player_characters.contains_key(c)),
            forall|c: u32| #[trigger]
                db@.offline_player_characters.contains_key(c) ==> db@.offline_player_characters[c]
                    == (if offline.contains_key(c) {
                    offline[c]
                } else {
                    online[c]
                }),
            forall|e: u32| #[trigger]
                db@.entities.contains_key(e) ==> entities.contains_key(e) && db@.entities[e]
                    == entities[e],
            forall|e: u32|
                entities.contains_key(e) && !before.pawns_of(player_id).contains(e)
                    ==> #[trigger] db@.entities.contains_key(e),
            forall|c: u32| #[trigger]
                db@.player_characters.contains_key(c) && online[c].player_id == player_id
                    ==> db@.entities.contains_key(online[c].entity_id),
            forall|c: u32|
                #![trigger online.contains_key(c)]
                online.contains_key(c) && online[c].player_id == player_id
                    && !db@.player_characters.contains_key(c) ==> !db@.entities.contains_key(
                    online[c].entity_id,
                ),
        decreases db.player_characters.rows().len() - i,
    {
        if db.player_characters.row(i).player_id == player_id {
            let ghost now = db@;
            let row = db.player_characters.remove_at(i);
            let _ = db.entities.remove(&row.entity_id);
            db.offline_player_characters.insert(row);
            proof {
                let gone = row.character_id;
                assert(now.player_characters.contains_key(gone));
                assert(before.pawn_of_player_is(gone, player_id, row.entity_id));
                assert(before.character_row(gone) == Some(online[gone]));
                assert forall|c: u32| #[trigger]
                    db@.player_characters.contains_key(c) && online[c].player_id
                        == player_id implies db@.entities.contains_key(online[c].entity_id) by {
                    assert(now.player_characters.contains_key(c));
                    assert(before.character_row(c) == Some(online[c]));
                    assert(c != gone);
                    assert(online[c].entity_id != online[gone].entity_id);
                }
            }
        } else {
            i += 1;
        }
    }
    proof {
        db.player_characters.lemma_scan_covers_view();
        assert forall|c: u32| #[trigger]
            db@.player_characters.contains_key(c) implies online[c].player_id != player_id by {
            let j = choose|j: int|
                0 <= j < db.player_characters.rows().len()
                    && #[trigger] db.player_characters.rows()[j] == db.player_characters@[c];
            assert(db.player_characters.rows()[j].player_id != player_id);
        }
        assert(db@.player_characters =~= not_owned_by(online, player_id));
        assert(db@.offline_player_characters =~= offline.union_prefer_right(
            owned_by(online, player_id),
        ));
        assert forall|e: u32| #[trigger]
            db@.entities.contains_key(e) implies !before.pawns_of(player_id).contains(e) by {
            if before.pawns_of(player_id).contains(e) {
                let c = choose|c: u32| before.pawn_of_player_is(c, player_id, e);
                assert(online.contains_key(c));
            }
        }
        assert(db@.entities =~= entities.remove_keys(before.pawns_of(player_id)));
    }
}

/// The session of `sender` ends.
///
/// The row of `sender` moves from the online to the offline players. Each of
/// its online characters moves to the offline characters, and the entity to
/// which the character is bound is deleted.
///
/// Refused with `PlayerNotFound` when `sender` is not online, and with
/// `EntityNotFound` when one of its online characters is bound to an entity
/// that is gone. A refusal leaves every table as it was: the player stays
/// online and none of its characters has moved.
pub fn disconnect(db: &mut Database, sender: Identity) -> (outcome: Result<(), ReducerError>)
    requires
        old(db).wf(),
    ensures
        final(db).wf(),
        match old(db)@.disconnect(sender) {
            Ok(next) => final(db)@ == next && outcome is Ok,
            Err(e) => final(db)@ == old(db)@ && outcome == Err::<(), ReducerError>(e),
        },
{
    proof {
        lemma_event_keeps_wf(old(db)@, Event::Disconnect { sender });
    }
    let at = match db.players.position(&sender) {
        Some(at) => at,
        None => {
            return Err(ReducerError::PlayerNotFound);
        },
    };
    let player_id = db.players.row(at).player_id;
    if has_stray_character(db, player_id) {
        return Err(ReducerError::EntityNotFound);
    }
    retire_characters(db, player_id);
    let player = db.players.remove_at(at);
    db.offline_players.insert(player);
    assert(db@ =~= old(db)@.with_player_retired(sender));
    Ok(())
}

} // verus!
