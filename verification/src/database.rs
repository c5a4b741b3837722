//! The store: five keyed tables, the cadence record and the id sequences.

use vstd::prelude::*;
use crate::entities::Entity;
use crate::laws::lemma_event_keeps_wf;
use crate::model::{DatabaseView, Event};
use crate::players::{Player, PlayerCharacter, PlayerCharacterView};
use crate::table::Table;
use crate::timers::MoveAllPlayersTimer;

verus! {

/// Whether one of the first `upto` rows is the character `c` and belongs to
/// `player_id`.
spec fn owned_among(rows: Seq<PlayerCharacterView>, upto: int, player_id: u32, c: u32) -> bool {
    exists|j: int|
        0 <= j < upto && (#[trigger] rows[j]).character_id == c && rows[j].player_id == player_id
}

/// Everything that the server keeps.
///
/// The fields are private to the crate: a `Database` can only be made empty
/// and changed through the operations, so it is always well formed.
#[derive(Clone, Debug, PartialEq, Eq)]
pub struct Database {
    pub(crate) players: Table<Player>,
    pub(crate) offline_players: Table<Player>,
    pub(crate) player_characters: Table<PlayerCharacter>,
    pub(crate) offline_player_characters: Table<PlayerCharacter>,
    pub(crate) entities: Table<Entity>,
    pub(crate) move_all_players_timer: Option<MoveAllPlayersTimer>,
    pub(crate) last_player_id: u32,
    pub(crate) last_character_id: u32,
    pub(crate) last_entity_id: u32,
}

impl Database {
    /// What the tables hold.
    pub open(crate) spec fn view(&self) -> DatabaseView {
        DatabaseView {
            players: self.players@,
            offline_players: self.offline_players@,
            player_characters: self.player_characters@,
            offline_player_characters: self.offline_player_characters@,
            entities: self.entities@,
            move_all_players_timer: self.move_all_players_timer,
            last_player_id: self.last_player_id,
            last_character_id: self.last_character_id,
            last_entity_id: self.last_entity_id,
        }
    }

    /// No table stores a key twice.
    pub(crate) open spec fn tables_wf(&self) -> bool {
        &&& self.players.wf()
        &&& self.offline_players.wf()
        &&& self.player_characters.wf()
        &&& self.offline_player_characters.wf()
        &&& self.entities.wf()
    }

    /// What every operation asks of the store and keeps: no table stores a
    /// key twice, and what the tables hold is well formed as
    /// [`DatabaseView::wf`] says. [`Database::new`] establishes it.
    pub open(crate) spec fn wf(&self) -> bool {
        self.tables_wf() && self@.wf()
    }

    /// What a well-formed store holds is well formed.
    pub proof fn lemma_wf_view(&self)
        requires
            self.wf(),
        ensures
            self@.wf(),
    {
    }

    /// A store with no rows and no id assigned.
    pub fn new() -> (db: Database)
        ensures
            db.wf(),
            db@ == DatabaseView::empty(),
    {
        let db = Database {
            players: Table::new(),
            offline_players: Table::new(),
            player_characters: Table::new(),
            offline_player_characters: Table::new(),
            entities: Table::new(),
            move_all_players_timer: None,
            last_player_id: 0,
            last_character_id: 0,
            last_entity_id: 0,
        };
        assert(db@ =~= DatabaseView::empty());
        db
    }

    /// The online players.
    pub fn players(&self) -> (table: &Table<Player>)
        requires
            self.wf(),
        ensures
            table.wf(),
            table@ == self@.players,
    {
        &self.players
    }

    /// The offline players.
    pub fn offline_players(&self) -> (table: &Table<Player>)
        requires
            self.wf(),
        ensures
            table.wf(),
            table@ == self@.offline_players,
    {
        &self.offline_players
    }

    /// The online characters.
    pub fn player_characters(&self) -> (table: &Table<PlayerCharacter>)
        requires
            self.wf(),
        ensures
            table.wf(),
            table@ == self@.player_characters,
    {
        &self.player_characters
    }

    /// The offline characters.
    pub fn offline_player_characters(&self) -> (table: &Table<PlayerCharacter>)
        requires
            self.wf(),
        ensures
            table.wf(),
            table@ == self@.offline_player_characters,
    {
        &self.offline_player_characters
    }

    /// The live entities.
    pub fn entities(&self) -> (table: &Table<Entity>)
        requires
            self.wf(),
        ensures
            table.wf(),
            table@ == self@.entities,
    {
        &self.entities
    }

    /// The ids of the online characters of `player_id`, each once, in no
    /// promised order.
    pub fn characters_of(&self, player_id: u32) -> (ids: Vec<u32>)
        requires
            self.wf(),
        ensures
            ids@.no_duplicates(),
            forall|c: u32| ids@.contains(c) <==> self@.is_online_character_of(c, player_id),
    {
        let ghost rows = self.player_characters.rows();
        let mut ids: Vec<u32> = Vec::new();
        let mut i: usize = 0;
        while i < self.player_characters.len()
            invariant
                self.tables_wf(),
                rows == self.player_characters.rows(),
                i <= rows.len(),
                forall|k: int| 0 <= k < ids@.len() ==> owned_among(rows, i as int, player_id, #[trigger] ids@[k]),
                forall|j: int|
                    0 <= j < i && (#[trigger] rows[j]).player_id == player_id ==> ids@.contains(
                        rows[j].character_id,
                    ),
                ids@.no_duplicates(),
            decreases rows.len() - i,
        {
            let row = self.player_characters.row(i);
            if row.player_id == player_id {
                let ghost found = ids@;
                proof {
                    assert forall|k: int| 0 <= k < found.len() implies #[trigger] found[k]
                        != row.character_id by {
                        assert(owned_among(rows, i as int, player_id, found[k]));
                        let j = choose|j: int|
                            0 <= j < i && (#[trigger] rows[j]).character_id == found[k]
                                && rows[j].player_id == player_id;
                        assert(rows[j].character_id != rows[i as int].character_id);
                    }
                }
                ids.push(row.character_id);
                proof {
                    assert forall|k: int| 0 <= k < ids@.len() implies owned_among(
                        rows,
                        i as int + 1,
                        player_id,
                        #[trigger] ids@[k],
                    ) by {
                        if k < found.len() {
                            assert(owned_among(rows, i as int, player_id, found[k]));
                            let j = choose|j: int|
                                0 <= j < i && (#[trigger] rows[j]).character_id == found[k]
                                    && rows[j].player_id == player_id;
                            assert(rows[j].character_id == ids@[k]);
                        } else {
                            assert(rows[i as int].character_id == ids@[k]);
                        }
                    }
                    assert forall|j: int|
                        0 <= j < i + 1 && (#[trigger] rows[j]).player_id
                            == player_id implies ids@.contains(rows[j].character_id) by {
                        if j < i {
                            assert(found.contains(rows[j].character_id));
                            let k = choose|k: int|
                                0 <= k < found.len() && found[k] == rows[j].character_id;
                            assert(ids@[k] == rows[j].character_id);
                        } else {
                            assert(ids@[found.len() as int] == rows[j].character_id);
                        }
                    }
                }
            } else {
                proof {
                    assert forall|k: int| 0 <= k < ids@.len() implies owned_among(
                        rows,
                        i as int + 1,
                        player_id,
                        #[trigger] ids@[k],
                    ) by {
                        assert(owned_among(rows, i as int, player_id, ids@[k]));
                        let j = choose|j: int|
                            0 <= j < i && (#[trigger] rows[j]).character_id == ids@[k]
                                && rows[j].player_id == player_id;
                        assert(0 <= j < i + 1);
                    }
                }
            }
            i += 1;
        }
        proof {
            self.player_characters.lemma_scan_covers_view();
            assert forall|c: u32| ids@.contains(c) <==> self@.is_online_character_of(
                c,
                player_id,
            ) by {
                if ids@.contains(c) {
                    let k = choose|k: int| 0 <= k < ids@.len() && ids@[k] == c;
                    assert(owned_among(rows, i as int, player_id, ids@[k]));
                    let j = choose|j: int|
                        0 <= j < i && (#[trigger] rows[j]).character_id == ids@[k]
                            && rows[j].player_id == player_id;
                    assert(self.player_characters@[rows[j].character_id] == rows[j]);
                }
                if self@.is_online_character_of(c, player_id) {
                    let j = choose|j: int|
                        0 <= j < rows.len() && #[trigger] rows[j] == self.player_characters@[c];
                    assert(rows[j].player_id == player_id);
                }
            }
        }
        ids
    }

    /// The cadence record, once the system has been started.
    pub fn move_all_players_timer(&self) -> (timer: Option<MoveAllPlayersTimer>)
        ensures
            timer == self@.move_all_players_timer,
    {
        self.move_all_players_timer
    }

    /// Replaces the stored cadence record by `timer`, which has the same id,
    /// so that the scheduler finds a new interval or a new time. Says whether
    /// a record with that id was stored; where none was, nothing changes.
    pub fn update_move_all_players_timer(&mut self, timer: MoveAllPlayersTimer) -> (updated: bool)
        requires
            old(self).wf(),
        ensures
            final(self).wf(),
            final(self)@ == old(self)@.update_timer(timer),
            updated == old(self)@.holds_timer(timer),
    {
        proof {
            lemma_event_keeps_wf(old(self)@, Event::UpdateTimer { timer });
        }
        match self.move_all_players_timer {
            Some(stored) => {
                if stored.scheduled_id == timer.scheduled_id {
                    self.move_all_players_timer = Some(timer);
                    assert(self@ =~= old(self)@.update_timer(timer));
                    true
                } else {
                    false
                }
            },
            None => false,
        }
    }

    /// Deletes the entity `entity_id` without a word to the character that
    /// is bound to it. Says whether there was such an entity.
    pub fn delete_entity(&mut self, entity_id: u32) -> (deleted: bool)
        requires
            old(self).wf(),
        ensures
            final(self).wf(),
            final(self)@ == old(self)@.delete_entity(entity_id),
            deleted == old(self)@.entities.contains_key(entity_id),
    {
        let taken = self.entities.remove(&entity_id);
        proof {
            lemma_event_keeps_wf(old(self)@, Event::DeleteEntity { entity_id });
            assert(self@ =~= old(self)@.delete_entity(entity_id));
        }
        taken.is_some()
    }
}

} // verus!
