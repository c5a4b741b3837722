//! What holds of every state that the operations can reach.

use vstd::prelude::*;
use crate::model::{never_spawns_for_nobody, never_unbinds, reached_by, DatabaseView, Event};
use crate::types::{Identity, Transform};

verus! {

/// Player ids stay unique where every player of `post` was a player of `pre`
/// with the same id.
proof fn lemma_player_ids_stay_unique(pre: DatabaseView, post: DatabaseView)
    requires
        pre.players_wf(),
        forall|a: Identity|
            (#[trigger] post.player_row(a)) is Some ==> pre.player_row(a) is Some
                && post.player_row(a)->0.player_id == pre.player_row(a)->0.player_id,
    ensures
        forall|a: Identity, b: Identity|
            (#[trigger] post.player_row(a)) is Some && (#[trigger] post.player_row(b)) is Some && a
                != b ==> post.player_row(a)->0.player_id != post.player_row(b)->0.player_id,
{
    assert forall|a: Identity, b: Identity|
        (#[trigger] post.player_row(a)) is Some && (#[trigger] post.player_row(b)) is Some && a
            != b implies post.player_row(a)->0.player_id != post.player_row(b)->0.player_id by {
        assert(pre.player_row(a) is Some && pre.player_row(b) is Some);
    }
}

/// Bindings stay unique where every character of `post` was a character of
/// `pre` bound to the same entity.
proof fn lemma_bindings_stay_unique(pre: DatabaseView, post: DatabaseView)
    requires
        pre.characters_wf(),
        forall|a: u32|
            (#[trigger] post.character_row(a)) is Some ==> pre.character_row(a) is Some
                && post.character_row(a)->0.entity_id == pre.character_row(a)->0.entity_id,
    ensures
        forall|a: u32, b: u32|
            (#[trigger] post.character_row(a)) is Some && (#[trigger] post.character_row(b))
                is Some && a != b ==> post.character_row(a)->0.entity_id != post.character_row(
                b,
            )->0.entity_id,
{
    assert forall|a: u32, b: u32|
        (#[trigger] post.character_row(a)) is Some && (#[trigger] post.character_row(b)) is Some
            && a != b implies post.character_row(a)->0.entity_id != post.character_row(
        b,
    )->0.entity_id by {
        assert(pre.character_row(a) is Some && pre.character_row(b) is Some);
    }
}

/// Whether the characters are well formed depends on the characters, the
/// entities and their id sequences alone.
proof fn lemma_characters_wf_frame(pre: DatabaseView, post: DatabaseView)
    requires
        pre.characters_wf(),
        post.player_characters == pre.player_characters,
        post.offline_player_characters == pre.offline_player_characters,
        post.entities == pre.entities,
        post.last_character_id == pre.last_character_id,
        post.last_entity_id == pre.last_entity_id,
    ensures
        post.characters_wf(),
{
    assert forall|a: u32| post.character_row(a) == pre.character_row(a) by {}
    lemma_bindings_stay_unique(pre, post);
}

/// Whether the players are well formed depends on the players and their id
/// sequence alone.
proof fn lemma_players_wf_frame(pre: DatabaseView, post: DatabaseView)
    requires
        pre.players_wf(),
        post.players == pre.players,
        post.offline_players == pre.offline_players,
        post.last_player_id == pre.last_player_id,
    ensures
        post.players_wf(),
{
    assert forall|a: Identity| post.player_row(a) == pre.player_row(a) by {}
    lemma_player_ids_stay_unique(pre, post);
}

/// A spawn leads from a well-formed state to a well-formed state.
pub proof fn lemma_spawn_keeps_wf(pre: DatabaseView, player_id: u32, position: Transform)
    requires
        pre.wf(),
        pre.can_spawn(),
    ensures
        pre.with_spawn(player_id, position).wf(),
{
    let post = pre.with_spawn(player_id, position);
    let c_new = (pre.last_character_id + 1) as u32;
    lemma_players_wf_frame(pre, post);
    assert forall|a: u32| a != c_new implies #[trigger] post.character_row(a) == pre.character_row(
        a,
    ) by {}
    assert(post.character_row(c_new) == Some(pre.next_character(player_id, position)));
    assert forall|a: u32, b: u32|
        (#[trigger] post.character_row(a)) is Some && (#[trigger] post.character_row(b)) is Some
            && a != b implies post.character_row(a)->0.entity_id != post.character_row(
        b,
    )->0.entity_id by {
        if a != c_new {
            assert(pre.character_row(a) is Some);
        }
        if b != c_new {
            assert(pre.character_row(b) is Some);
        }
    }
}

/// A new player row for an identity that has none leads from a well-formed
/// state to a well-formed state.
pub proof fn lemma_new_player_keeps_wf(pre: DatabaseView, sender: Identity)
    requires
        pre.wf(),
        pre.player_row(sender) is None,
        pre.last_player_id < u32::MAX,
    ensures
        pre.with_new_player(sender).wf(),
{
    let post = pre.with_new_player(sender);
    lemma_characters_wf_frame(pre, post);
    assert forall|a: Identity| a != sender implies #[trigger] post.player_row(a) == pre.player_row(
        a,
    ) by {}
    assert forall|a: Identity, b: Identity|
        (#[trigger] post.player_row(a)) is Some && (#[trigger] post.player_row(b)) is Some && a
            != b implies post.player_row(a)->0.player_id != post.player_row(b)->0.player_id by {
        if a != sender {
            assert(pre.player_row(a) is Some);
        }
        if b != sender {
            assert(pre.player_row(b) is Some);
        }
    }
}

/// Renaming an online player leads from a well-formed state to a
/// well-formed state.
pub proof fn lemma_name_keeps_wf(pre: DatabaseView, sender: Identity, name: Seq<char>)
    requires
        pre.wf(),
        pre.players.contains_key(sender),
    ensures
        pre.with_name(sender, name).wf(),
{
    let post = pre.with_name(sender, name);
    lemma_characters_wf_frame(pre, post);
    assert forall|a: Identity|
        (#[trigger] post.player_row(a)) is Some implies pre.player_row(a) is Some
        && post.player_row(a)->0.player_id == pre.player_row(a)->0.player_id by {}
    lemma_player_ids_stay_unique(pre, post);
}

proof fn lemma_restore_keeps_wf(pre: DatabaseView, sender: Identity)
    requires
        pre.wf(),
        pre.offline_players.contains_key(sender),
    ensures
        pre.with_player_restored(sender).wf(),
{
    let post = pre.with_player_restored(sender);
    assert forall|a: Identity| post.player_row(a) == pre.player_row(a) by {}
    assert forall|a: u32| post.character_row(a) == pre.character_row(a) by {}
    lemma_player_ids_stay_unique(pre, post);
    lemma_bindings_stay_unique(pre, post);
}

proof fn lemma_retire_keeps_wf(pre: DatabaseView, sender: Identity)
    requires
        pre.wf(),
        pre.players.contains_key(sender),
    ensures
        pre.with_player_retired(sender).wf(),
{
    let post = pre.with_player_retired(sender);
    let player_id = pre.players[sender].player_id;
    assert forall|a: Identity| post.player_row(a) == pre.player_row(a) by {}
    assert forall|a: u32| post.character_row(a) == pre.character_row(a) by {}
    lemma_player_ids_stay_unique(pre, post);
    lemma_bindings_stay_unique(pre, post);
    assert forall|c: u32| #[trigger]
        post.offline_player_characters.contains_key(c) implies !post.entities.contains_key(
        post.offline_player_characters[c].entity_id,
    ) by {
        if !pre.offline_player_characters.contains_key(c) {
            assert(pre.pawn_of_player_is(c, player_id, pre.player_characters[c].entity_id));
        }
    }
}

proof fn lemma_input_keeps_wf(pre: DatabaseView, player_id: u32, new_transform: Transform)
    requires
        pre.wf(),
    ensures
        pre.with_input(player_id, new_transform).wf(),
{
    let post = pre.with_input(player_id, new_transform);
    lemma_players_wf_frame(pre, post);
    assert forall|a: u32|
        (#[trigger] post.character_row(a)) is Some implies pre.character_row(a) is Some
        && post.character_row(a)->0.entity_id == pre.character_row(a)->0.entity_id by {}
    lemma_bindings_stay_unique(pre, post);
}

proof fn lemma_spawned_keeps_wf(pre: DatabaseView, character_id: u32)
    requires
        pre.wf(),
        pre.player_characters.contains_key(character_id),
    ensures
        pre.player_spawned(character_id)->Ok_0.wf(),
{
    let post = pre.player_spawned(character_id)->Ok_0;
    lemma_players_wf_frame(pre, post);
    assert forall|a: u32|
        (#[trigger] post.character_row(a)) is Some implies pre.character_row(a) is Some
        && post.character_row(a)->0.entity_id == pre.character_row(a)->0.entity_id by {}
    lemma_bindings_stay_unique(pre, post);
}

proof fn lemma_entities_changed_keeps_wf(pre: DatabaseView, post: DatabaseView)
    requires
        pre.wf(),
        post == (DatabaseView { entities: post.entities, ..pre }),
        forall|e: u32| #[trigger]
            post.entities.contains_key(e) ==> pre.entities.contains_key(e)
                && post.entities[e].entity_id == e,
    ensures
        post.wf(),
{
    lemma_players_wf_frame(pre, post);
    assert forall|a: u32| post.character_row(a) == pre.character_row(a) by {}
    lemma_bindings_stay_unique(pre, post);
}

/// No event leads out of the well-formed states: after it, as before it, no
/// player is both online and offline, no character is both online and
/// offline, every row is stored under its own key with ids that the store
/// assigned, no two players share a player id, no two characters share an
/// entity, and no offline character has a live entity.
pub proof fn lemma_event_keeps_wf(pre: DatabaseView, event: Event)
    requires
        pre.wf(),
    ensures
        pre.after(event).wf(),
{
    match event {
        Event::Init => {
            let post = pre.after(event);
            lemma_players_wf_frame(pre, post);
            lemma_characters_wf_frame(pre, post);
        },
        Event::Connect { sender } => {
            if pre.offline_players.contains_key(sender) {
                lemma_restore_keeps_wf(pre, sender);
            } else if pre.players.contains_key(sender) || pre.last_player_id == u32::MAX {
            } else {
                lemma_new_player_keeps_wf(pre, sender);
                let joined = pre.with_new_player(sender);
                if !joined.has_online_character(joined.last_player_id) && joined.can_spawn() {
                    lemma_spawn_keeps_wf(joined, joined.last_player_id, Transform::default_spawn());
                }
            }
        },
        Event::Disconnect { sender } => {
            if pre.players.contains_key(sender) {
                lemma_retire_keeps_wf(pre, sender);
            }
        },
        Event::EnterGame { sender, name } => {
            if pre.players.contains_key(sender) {
                lemma_name_keeps_wf(pre, sender, name);
                let named = pre.with_name(sender, name);
                if named.can_spawn() {
                    lemma_spawn_keeps_wf(
                        named,
                        pre.players[sender].player_id,
                        Transform::default_spawn(),
                    );
                }
            }
        },
        Event::Respawn { sender } => {
            if pre.players.contains_key(sender) && pre.can_spawn() {
                let player_id = pre.players[sender].player_id;
                lemma_spawn_keeps_wf(pre, player_id, Transform::default_spawn());
            }
        },
        Event::UpdatePlayerInput { sender, new_transform } => {
            if pre.players.contains_key(sender) {
                lemma_input_keeps_wf(pre, pre.players[sender].player_id, new_transform);
            }
        },
        Event::PlayerSpawned { character_id } => {
            if pre.player_characters.contains_key(character_id) {
                lemma_spawned_keeps_wf(pre, character_id);
            }
        },
        Event::MoveAllPlayers => {
            lemma_entities_changed_keeps_wf(pre, pre.move_all_players());
        },
        Event::SpawnPlayerCharacterAt { player_id, position } => {
            if pre.can_spawn() {
                lemma_spawn_keeps_wf(pre, player_id, position);
            }
        },
        Event::DeleteEntity { entity_id } => {
            lemma_entities_changed_keeps_wf(pre, pre.delete_entity(entity_id));
        },
        Event::UpdateTimer { timer } => {
            let post = pre.after(event);
            lemma_players_wf_frame(pre, post);
            lemma_characters_wf_frame(pre, post);
        },
    }
}

/// Every state that a run of events reaches from the empty store is well
/// formed.
pub proof fn lemma_reached_wf(events: Seq<Event>)
    ensures
        reached_by(events).wf(),
    decreases events.len(),
{
    if events.len() == 0 {
        let start = DatabaseView::empty();
        assert forall|a: Identity| start.player_row(a) is None by {}
        assert forall|a: u32| start.character_row(a) is None by {}
    } else {
        lemma_reached_wf(events.drop_last());
        lemma_event_keeps_wf(reached_by(events.drop_last()), events.last());
    }
}

/// A session start that is accepted leaves the caller among the online
/// players.
pub proof fn lemma_connect_registers(pre: DatabaseView, sender: Identity)
    requires
        pre.connect(sender) is Ok,
    ensures
        pre.connect(sender)->Ok_0.players.contains_key(sender),
{
}

/// No event removes a player: one that has a row before the event has one
/// after it, with the same player id.
pub proof fn lemma_event_keeps_player(pre: DatabaseView, event: Event, id: Identity)
    requires
        pre.wf(),
        pre.player_row(id) is Some,
    ensures
        pre.after(event).player_row(id) is Some,
        pre.after(event).player_row(id)->0.identity == pre.player_row(id)->0.identity,
        pre.after(event).player_row(id)->0.player_id == pre.player_row(id)->0.player_id,
{
}

/// No event removes a character: one that has a row before the event has
/// one after it, with the same owner, bound to the same entity.
pub proof fn lemma_event_keeps_character(pre: DatabaseView, event: Event, c: u32)
    requires
        pre.wf(),
        pre.character_row(c) is Some,
    ensures
        pre.after(event).character_row(c) is Some,
        pre.after(event).character_row(c)->0.character_id == pre.character_row(c)->0.character_id,
        pre.after(event).character_row(c)->0.player_id == pre.character_row(c)->0.player_id,
        pre.after(event).character_row(c)->0.entity_id == pre.character_row(c)->0.entity_id,
{
}

/// An identity that has a player row at some point of a run is, at every
/// later point of the run, in exactly one of the two sets of players: never
/// in both, never in neither.
pub proof fn lemma_player_in_exactly_one_set(events: Seq<Event>, n: int, id: Identity)
    requires
        0 <= n <= events.len(),
        reached_by(events.take(n)).player_row(id) is Some,
    ensures
        reached_by(events).players.contains_key(id) != reached_by(
            events,
        ).offline_players.contains_key(id),
    decreases events.len() - n,
{
    lemma_reached_wf(events);
    if n == events.len() {
        assert(events.take(n) =~= events);
    } else {
        let shorter = events.drop_last();
        assert(shorter.take(n) =~= events.take(n));
        lemma_player_in_exactly_one_set(shorter, n, id);
        lemma_reached_wf(shorter);
        lemma_event_keeps_player(reached_by(shorter), events.last(), id);
    }
}

/// A character that has a row at some point of a run is, at every later
/// point of the run, in exactly one of the two sets of characters.
pub proof fn lemma_character_in_exactly_one_set(events: Seq<Event>, n: int, c: u32)
    requires
        0 <= n <= events.len(),
        reached_by(events.take(n)).character_row(c) is Some,
    ensures
        reached_by(events).player_characters.contains_key(c) != reached_by(
            events,
        ).offline_player_characters.contains_key(c),
    decreases events.len() - n,
{
    lemma_reached_wf(events);
    if n == events.len() {
        assert(events.take(n) =~= events);
    } else {
        let shorter = events.drop_last();
        assert(shorter.take(n) =~= events.take(n));
        lemma_character_in_exactly_one_set(shorter, n, c);
        lemma_reached_wf(shorter);
        lemma_event_keeps_character(reached_by(shorter), events.last(), c);
    }
}

/// Where every online character is bound to a live entity before an event,
/// the same holds after it, unless the event is the return of an offline
/// player with offline characters, which come online without an entity, or
/// the deletion of an entity to which an online character is bound.
pub proof fn lemma_event_keeps_characters_bound(pre: DatabaseView, event: Event)
    requires
        pre.wf(),
        pre.online_characters_bound(),
        !event.unbinds(pre),
    ensures
        pre.after(event).online_characters_bound(),
{
    let post = pre.after(event);
    match event {
        Event::Connect { sender } => {
            if pre.offline_players.contains_key(sender) {
                let player_id = pre.offline_players[sender].player_id;
                assert forall|c: u32| #[trigger]
                    post.player_characters.contains_key(c) implies post.entities.contains_key(
                    post.player_characters[c].entity_id,
                ) by {
                    assert(!pre.is_offline_character_of(c, player_id));
                }
            }
        },
        Event::Disconnect { sender } => {
            if pre.disconnect(sender) is Ok {
                let player_id = pre.players[sender].player_id;
                assert forall|c: u32| #[trigger]
                    post.player_characters.contains_key(c) implies post.entities.contains_key(
                    post.player_characters[c].entity_id,
                ) by {
                    let e = pre.player_characters[c].entity_id;
                    if pre.pawns_of(player_id).contains(e) {
                        let d = choose|d: u32| pre.pawn_of_player_is(d, player_id, e);
                        assert(pre.character_row(c) is Some && pre.character_row(d) is Some);
                    }
                }
            }
        },
        Event::DeleteEntity { entity_id } => {
            assert forall|c: u32| #[trigger]
                post.player_characters.contains_key(c) implies post.entities.contains_key(
                post.player_characters[c].entity_id,
            ) by {
                assert(!pre.pawn_is(c, entity_id));
            }
        },
        _ => {},
    }
}

/// In every state that a run reaches in which no offline player with
/// offline characters returns and no entity is deleted under an online
/// character, every online character is bound to a live entity.
pub proof fn lemma_reached_characters_bound(events: Seq<Event>)
    requires
        never_unbinds(events),
    ensures
        reached_by(events).online_characters_bound(),
    decreases events.len(),
{
    if events.len() > 0 {
        let shorter = events.drop_last();
        assert forall|n: int| 0 <= n < shorter.len() implies !(#[trigger] shorter[n]).unbinds(
            reached_by(shorter.take(n)),
        ) by {
            assert(shorter.take(n) =~= events.take(n));
            assert(!events[n].unbinds(reached_by(events.take(n))));
        }
        lemma_reached_characters_bound(shorter);
        lemma_reached_wf(shorter);
        assert(events.take(events.len() - 1) =~= shorter);
        assert(!events[events.len() - 1].unbinds(reached_by(events.take(events.len() - 1))));
        lemma_event_keeps_characters_bound(reached_by(shorter), events.last());
    }
}

/// Where every character is in the set that its owner is in before an
/// event, the same holds after it, unless the event creates a character for
/// a player id that no online player has.
pub proof fn lemma_event_keeps_owners_mirrored(pre: DatabaseView, event: Event)
    requires
        pre.wf(),
        pre.owners_mirrored(),
        !event.spawns_for_nobody(pre),
    ensures
        pre.after(event).owners_mirrored(),
{
    let post = pre.after(event);
    assert forall|c: u32| #[trigger]
        post.player_characters.contains_key(c) implies post.is_online_player(
        post.player_characters[c].player_id,
    ) by {
        lemma_owner_after(pre, event, c);
    }
    assert forall|c: u32| #[trigger]
        post.offline_player_characters.contains_key(c) implies post.is_offline_player(
        post.offline_player_characters[c].player_id,
    ) by {
        lemma_owner_after(pre, event, c);
    }
}

/// In every state that a run reaches in which characters are created for
/// online players only, every character is in the set that its owner is in.
pub proof fn lemma_reached_owners_mirrored(events: Seq<Event>)
    requires
        never_spawns_for_nobody(events),
    ensures
        reached_by(events).owners_mirrored(),
    decreases events.len(),
{
    if events.len() > 0 {
        let shorter = events.drop_last();
        assert forall|n: int| 0 <= n < shorter.len() implies !(
        #[trigger] shorter[n]).spawns_for_nobody(reached_by(shorter.take(n))) by {
            assert(shorter.take(n) =~= events.take(n));
            assert(!events[n].spawns_for_nobody(reached_by(events.take(n))));
        }
        lemma_reached_owners_mirrored(shorter);
        lemma_reached_wf(shorter);
        assert(events.take(events.len() - 1) =~= shorter);
        assert(!events[events.len() - 1].spawns_for_nobody(
            reached_by(events.take(events.len() - 1)),
        ));
        lemma_event_keeps_owners_mirrored(reached_by(shorter), events.last());
    }
}

/// The one step of [`lemma_event_keeps_owners_mirrored`]: the owner of the
/// character `c` after the event is in the set in which `c` is.
proof fn lemma_owner_after(pre: DatabaseView, event: Event, c: u32)
    requires
        pre.wf(),
        pre.owners_mirrored(),
        !event.spawns_for_nobody(pre),
    ensures
        pre.after(event).player_characters.contains_key(c) ==> pre.after(event).is_online_player(
            pre.after(event).player_characters[c].player_id,
        ),
        pre.after(event).offline_player_characters.contains_key(c) ==> pre.after(
            event,
        ).is_offline_player(pre.after(event).offline_player_characters[c].player_id),
{
    let post = pre.after(event);
    if pre.apply(event) is Err {
        return ;
    }
    // where the character and its owner stood before the event
    let was_online = pre.player_characters.contains_key(c);
    let was_offline = pre.offline_player_characters.contains_key(c);
    let owner = if was_online {
        pre.player_characters[c].player_id
    } else {
        pre.offline_player_characters[c].player_id
    };
    let online_id = choose|id: Identity| pre.is_online_as(id, owner);
    let offline_id = choose|id: Identity| pre.is_offline_as(id, owner);
    if was_online {
        assert(pre.is_online_player(owner));
        assert(pre.is_online_as(online_id, owner));
        assert(pre.player_row(online_id) is Some);
    }
    if was_offline {
        assert(pre.is_offline_player(owner));
        assert(pre.is_offline_as(offline_id, owner));
        assert(pre.player_row(offline_id) is Some);
    }
    match event {
        Event::Connect { sender } => {
            if pre.offline_players.contains_key(sender) {
                assert(pre.player_row(sender) is Some);
                let returning = pre.offline_players[sender].player_id;
                if post.player_characters.contains_key(c) {
                    if was_online {
                        assert(post.is_online_as(online_id, owner));
                    } else {
                        assert(post.is_online_as(sender, returning));
                    }
                }
                if post.offline_player_characters.contains_key(c) {
                    assert(offline_id != sender);
                    assert(post.is_offline_as(offline_id, owner));
                }
            } else {
                let joined = pre.with_new_player(sender);
                let fresh = joined.last_player_id;
                if post.player_characters.contains_key(c) {
                    if was_online {
                        assert(post.is_online_as(online_id, owner));
                    } else {
                        assert(post.is_online_as(sender, fresh));
                    }
                }
                if post.offline_player_characters.contains_key(c) {
                    assert(post.is_offline_as(offline_id, owner));
                }
            }
        },
        Event::Disconnect { sender } => {
            let leaving = pre.players[sender].player_id;
            assert(pre.player_row(sender) is Some);
            if post.player_characters.contains_key(c) {
                assert(online_id != sender);
                assert(post.is_online_as(online_id, owner));
            }
            if post.offline_player_characters.contains_key(c) {
                if was_offline {
                    assert(post.is_offline_as(offline_id, owner));
                } else {
                    assert(post.is_offline_as(sender, leaving));
                }
            }
        },
        Event::EnterGame { sender, name } => {
            if post.player_characters.contains_key(c) {
                if was_online {
                    assert(post.is_online_as(online_id, owner));
                } else {
                    assert(post.is_online_as(sender, pre.players[sender].player_id));
                }
            }
            if post.offline_player_characters.contains_key(c) {
                assert(post.is_offline_as(offline_id, owner));
            }
        },
        Event::Respawn { sender } => {
            if post.player_characters.contains_key(c) {
                if was_online {
                    assert(post.is_online_as(online_id, owner));
                } else {
                    assert(post.is_online_as(sender, pre.players[sender].player_id));
                }
            }
            if post.offline_player_characters.contains_key(c) {
                assert(post.is_offline_as(offline_id, owner));
            }
        },
        Event::SpawnPlayerCharacterAt { player_id, position } => {
            if post.player_characters.contains_key(c) {
                if was_online {
                    assert(post.is_online_as(online_id, owner));
                } else {
                    let id = choose|id: Identity| pre.is_online_as(id, player_id);
                    assert(post.is_online_as(id, player_id));
                }
            }
            if post.offline_player_characters.contains_key(c) {
                assert(post.is_offline_as(offline_id, owner));
            }
        },
        _ => {
            if post.player_characters.contains_key(c) {
                assert(post.is_online_as(online_id, owner));
            }
            if post.offline_player_characters.contains_key(c) {
                assert(post.is_offline_as(offline_id, owner));
            }
        },
    }
}

/// To report a character as shown twice is to report it once: both reports
/// are accepted, and after each the character no longer needs to be
/// spawned; the second changes nothing.
pub proof fn lemma_player_spawned_idempotent(pre: DatabaseView, character_id: u32)
    requires
        pre.player_spawned(character_id) is Ok,
    ensures
        ({
            let once = pre.player_spawned(character_id)->Ok_0;
            &&& !once.player_characters[character_id].needs_spawn
            &&& once.player_spawned(character_id) == Ok::<DatabaseView, crate::error::ReducerError>(
                once,
            )
        }),
{
    let once = pre.player_spawned(character_id)->Ok_0;
    let twice = once.player_spawned(character_id)->Ok_0;
    assert(twice.player_characters =~= once.player_characters);
    assert(twice =~= once);
}

} // verus!
