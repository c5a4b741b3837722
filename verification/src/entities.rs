//! World entities and the periodic step that moves them.

use vstd::prelude::*;
use crate::database::Database;
use crate::error::ReducerError;
use crate::laws::lemma_event_keeps_wf;
use crate::model::{DatabaseView, Event};
use crate::players::PlayerCharacterView;
use crate::table::Row;
use crate::timers::MoveAllPlayersTimer;
use crate::types::Transform;

verus! {

/// An object of the world. Here it is always the pawn of one character, and
/// it exists only while that character is online.
#[derive(Clone, Debug, PartialEq, Eq)]
pub struct Entity {
    /// The primary key, assigned by the store.
    pub entity_id: u32,
    /// A tag such as `"player_pawn"`.
    pub entity_type: String,
    /// Where the entity stands in the world.
    pub transform: Transform,
}

/// What an [`Entity`] row says.
pub struct EntityView {
    pub entity_id: u32,
    pub entity_type: Seq<char>,
    pub transform: Transform,
}

impl View for Entity {
    type V = EntityView;

    open spec fn view(&self) -> EntityView {
        EntityView {
            entity_id: self.entity_id,
            entity_type: self.entity_type@,
            transform: self.transform,
        }
    }
}

impl Row for Entity {
    type Key = u32;

    open spec fn key_of(v: EntityView) -> u32 {
        v.entity_id
    }

    fn has_key(&self, key: &u32) -> (b: bool) {
        self.entity_id == *key
    }
}

/// Whether one of the first `upto` rows is bound to the entity `entity_id`.
spec fn bound_among(rows: Seq<PlayerCharacterView>, upto: int, entity_id: u32) -> bool {
    exists|j: int| 0 <= j < upto && (#[trigger] rows[j]).entity_id == entity_id
}

/// One tick of the scheduler: every online character's intended pose is
/// copied onto the entity to which the character is bound.
///
/// A character whose entity is gone is passed over without an error, so the
/// operation never fails. No row is created or deleted, and nothing but the
/// pose of an entity changes. `_timer` is the cadence record that the
/// scheduler read; the operation does not look at it.
pub fn move_all_players(
    db: &mut Database,
    _timer: MoveAllPlayersTimer,
) -> (outcome: Result<(), ReducerError>)
    requires
        old(db).wf(),
    ensures
        final(db).wf(),
        final(db)@ == old(db)@.move_all_players(),
        outcome is Ok,
{
    proof {
        lemma_event_keeps_wf(old(db)@, Event::MoveAllPlayers);
    }
    let ghost before = db@;
    let ghost rows = db.player_characters.rows();
    let ghost entities = db@.entities;
    let mut i: usize = 0;
    while i < db.player_characters.len()
        invariant
            db.tables_wf(),
            before == old(db)@,
            before.wf(),
            rows == db.player_characters.rows(),
            entities == before.entities,
            db@ == (DatabaseView { entities: db@.entities, ..before }),
            i <= rows.len(),
            forall|e: u32| #[trigger] db@.entities.contains_key(e) <==> entities.contains_key(e),
            forall|e: u32| #[trigger]
                db@.entities.contains_key(e) && !bound_among(rows, i as int, e) ==> db@.entities[e]
                    == entities[e],
            forall|j: int|
                0 <= j < i && entities.contains_key((#[trigger] rows[j]).entity_id)
                    ==> db@.entities[rows[j].entity_id] == (EntityView {
                    transform: rows[j].transform,
                    ..entities[rows[j].entity_id]
                }),
        decreases rows.len() - i,
    {
        let row = db.player_characters.row(i);
        let target = row.transform;
        let entity_id = row.entity_id;
        match db.entities.position(&entity_id) {
            Some(at) => {
                let entity = db.entities.row(at);
                let moved = Entity {
                    entity_id: entity.entity_id,
                    entity_type: entity.entity_type.clone(),
                    transform: target,
                };
                proof {
                    db.player_characters.lemma_scan_covers_view();
                    assert(before.character_row(rows[i as int].character_id) == Some(
                        rows[i as int],
                    ));
                    assert forall|j: int| 0 <= j < i implies (#[trigger] rows[j]).entity_id
                        != entity_id by {
                        assert(before.character_row(rows[j].character_id) == Some(rows[j]));
                        assert(rows[j].character_id != rows[i as int].character_id);
                    }
                    assert(!bound_among(rows, i as int, entity_id));
                }
                db.entities.replace_at(at, moved);
                proof {
                    assert forall|e: u32| #[trigger]
                        db@.entities.contains_key(e) && !bound_among(
                            rows,
                            i as int + 1,
                            e,
                        ) implies db@.entities[e] == entities[e] by {
                        assert(rows[i as int].entity_id != e);
                        if bound_among(rows, i as int, e) {
                            let j = choose|j: int|
                                0 <= j < i && (#[trigger] rows[j]).entity_id == e;
                            assert(0 <= j < i + 1 && rows[j].entity_id == e);
                        }
                    }
                }
            },
            None => {
                proof {
                    assert forall|e: u32| #[trigger]
                        db@.entities.contains_key(e) && !bound_among(
                            rows,
                            i as int + 1,
                            e,
                        ) implies db@.entities[e] == entities[e] by {
                        if bound_among(rows, i as int, e) {
                            let j = choose|j: int|
                                0 <= j < i && (#[trigger] rows[j]).entity_id == e;
                            assert(0 <= j < i + 1 && rows[j].entity_id == e);
                        }
                    }
                }
            },
        }
        i += 1;
    }
    proof {
        db.player_characters.lemma_scan_covers_view();
        let expected = before.move_all_players().entities;
        assert forall|e: u32| #[trigger] db@.entities.contains_key(e) implies db@.entities[e]
            == expected[e] by {
            if before.has_pawn(e) {
                let c = before.pawn_owner(e);
                assert(before.pawn_is(c, e));
                let j = choose|j: int|
                    0 <= j < rows.len() && #[trigger] rows[j] == before.player_characters[c];
                assert(rows[j].entity_id == e);
            } else {
                if bound_among(rows, rows.len() as int, e) {
                    let j = choose|j: int|
                        0 <= j < rows.len() && (#[trigger] rows[j]).entity_id == e;
                    assert(before.pawn_is(rows[j].character_id, e));
                }
            }
        }
        assert(db@.entities =~= expected);
    }
    Ok(())
}

} // verus!
