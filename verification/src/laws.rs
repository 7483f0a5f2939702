//! What holds of the reducers together, proved from what each of them makes
//! of the store.

use crate::engine::{invoke_outcome, store_outcome, EngineView, ReducerCallView};
use crate::errors::{EntityKind, ReducerErrorView};
use crate::graph::{
    create_connection_outcome, first_exit, go_outcome, is_first_exit, lemma_adjacency_added,
    lemma_adjacent_kept, lemma_exit_keeps_rooms, with_adjacency, with_exit,
};
use crate::players::{
    create_player_outcome, say_outcome, seeded, sign_in_outcome, sign_out_outcome, START_ROOM_ID,
    START_WORLD_ID, START_ZONE_ID,
};
use crate::scheduler::{
    connected, disconnected, due_time, in_due_order, is_slot, scheduled, slot, Deferred,
    DeferredCall, SchedulerView,
};
use crate::store::{find, has_key, lemma_found_at, position, unique, Column, Row};
use crate::tables::{
    ExitView, Globals, GlobalsById, Location, LocationByEntity, LocationView, Player,
    PlayerByEntity, PlayerByIdentity, Room, RoomById, RoomView, World, WorldById, Zone, ZoneById,
};
use crate::world::{adjacent, entity_counter, relocated, valid, StoreView, GLOBALS_ID};
use vstd::prelude::*;

verus! {

/// The entity is in a room and has no last room: it is in the world.
pub open spec fn online(location: LocationView) -> bool {
    location.room_id is Some && location.last_room_id is None
}

/// The entity is in no room and has a last room: it has left the world.
pub open spec fn offline(location: LocationView) -> bool {
    location.room_id is None && location.last_room_id is Some
}

/// Of the room and the last room, every location names exactly one.
pub open spec fn all_steady(locations: Seq<LocationView>) -> bool {
    forall|i: int|
        0 <= i < locations.len() ==> online(#[trigger] locations[i]) || offline(locations[i])
}

/// Of the room and the last room, every location but that of the entity
/// `id` names exactly one.
pub open spec fn steady_elsewhere(locations: Seq<LocationView>, id: u64) -> bool {
    forall|i: int|
        0 <= i < locations.len() && (#[trigger] locations[i]).spawnable_entity_id != id ==> online(
            locations[i],
        ) || offline(locations[i])
}

/// Writing where one entity is leaves the location of every other entity
/// as it was, and is read back under the entity's id.
pub proof fn lemma_relocated(
    locations: Seq<LocationView>,
    id: u64,
    room_id: Option<Seq<char>>,
    last_room_id: Option<Seq<char>>,
    other: u64,
)
    requires
        unique::<Location>(locations),
        has_key::<Location, LocationByEntity>(locations, id),
    ensures
        unique::<Location>(relocated(locations, id, room_id, last_room_id)),
        relocated(locations, id, room_id, last_room_id).len() == locations.len(),
        find::<Location, LocationByEntity>(relocated(locations, id, room_id, last_room_id), id)
            == Some(LocationView { spawnable_entity_id: id, room_id, last_room_id }),
        other != id ==> find::<Location, LocationByEntity>(
            relocated(locations, id, room_id, last_room_id),
            other,
        ) == find::<Location, LocationByEntity>(locations, other),
{
    let after = relocated(locations, id, room_id, last_room_id);
    let at = position::<Location, LocationByEntity>(locations, id);
    assert forall|a: int, b: int|
        0 <= a < after.len() && 0 <= b < after.len() && a != b
            implies !Location::collides(
        #[trigger] after[a],
        #[trigger] after[b],
    ) by {
        assert(after[a].spawnable_entity_id == locations[a].spawnable_entity_id);
        assert(after[b].spawnable_entity_id == locations[b].spawnable_entity_id);
        assert(!Location::collides(locations[a], locations[b]));
    }
    lemma_found_at::<Location, LocationByEntity>(after, id, at);
    if other != id {
        if has_key::<Location, LocationByEntity>(locations, other) {
            let i = position::<Location, LocationByEntity>(locations, other);
            assert(after[i] == locations[i]);
            lemma_found_at::<Location, LocationByEntity>(after, other, i);
        }
        if has_key::<Location, LocationByEntity>(after, other) {
            let j = position::<Location, LocationByEntity>(after, other);
            assert(after[j] == locations[j]);
            lemma_found_at::<Location, LocationByEntity>(locations, other, j);
        }
    }
}

/// A player is made for every caller who has none, as long as the world is
/// initialized and the counter can still count; for no other caller, and
/// under no other conditions.
pub proof fn law_create_player_succeeds(
    s: StoreView,
    sender: Seq<u8>,
    name: Seq<char>,
    description: Seq<char>,
)
    ensures
        create_player_outcome(s, sender, name, description) is Ok <==> {
            &&& !has_key::<Player, PlayerByIdentity>(s.players, sender)
            &&& has_key::<Globals, GlobalsById>(s.globals, GLOBALS_ID)
            &&& entity_counter(s.globals) < u64::MAX
        },
        has_key::<Player, PlayerByIdentity>(s.players, sender) ==> create_player_outcome(
            s,
            sender,
            name,
            description,
        ) == Err::<StoreView, ReducerErrorView>(
            ReducerErrorView::AlreadyExists(EntityKind::Player),
        ),
{
}

/// A caller has one player at most: once `create_player` has made the
/// caller's player, it makes no other for the same caller, whatever name
/// and description it is given, and says that the player exists. The
/// first call adds exactly one location, one mobile and one player, under
/// an id that the counter had not given out before.
pub proof fn law_one_player_per_caller(
    s: StoreView,
    sender: Seq<u8>,
    name: Seq<char>,
    description: Seq<char>,
    second_name: Seq<char>,
    second_description: Seq<char>,
)
    requires
        valid(s),
        create_player_outcome(s, sender, name, description) is Ok,
    ensures
        ({
            let made = create_player_outcome(s, sender, name, description)->Ok_0;
            &&& create_player_outcome(made, sender, second_name, second_description) == Err::<
                StoreView,
                ReducerErrorView,
            >(ReducerErrorView::AlreadyExists(EntityKind::Player))
            &&& made.locations.len() == s.locations.len() + 1
            &&& made.mobiles.len() == s.mobiles.len() + 1
            &&& made.players.len() == s.players.len() + 1
            &&& made.players.last().identity == sender
            &&& made.players.last().spawnable_entity_id == entity_counter(s.globals) + 1
            &&& made.locations.last().spawnable_entity_id == entity_counter(s.globals) + 1
            &&& made.mobiles.last().spawnable_entity_id == entity_counter(s.globals) + 1
            &&& entity_counter(made.globals) == entity_counter(s.globals) + 1
            &&& unique::<Player>(made.players)
            &&& unique::<Location>(made.locations)
        }),
{
    let made = create_player_outcome(s, sender, name, description)->Ok_0;
    let last = made.players.len() - 1;
    assert(PlayerByIdentity::key(made.players[last]) == sender);
    let at = position::<Globals, GlobalsById>(s.globals, GLOBALS_ID);
    assert(GlobalsById::key(s.globals[at]) == GLOBALS_ID);
    assert(GlobalsById::key(made.globals[at]) == GLOBALS_ID);
    assert forall|a: int, b: int|
        0 <= a < made.globals.len() && 0 <= b < made.globals.len() && a != b
            implies !Globals::collides(
        #[trigger] made.globals[a],
        #[trigger] made.globals[b],
    ) by {
        assert(made.globals[a].id == s.globals[a].id);
        assert(made.globals[b].id == s.globals[b].id);
        assert(!Globals::collides(s.globals[a], s.globals[b]));
    }
    lemma_found_at::<Globals, GlobalsById>(made.globals, GLOBALS_ID, at);
    assert forall|a: int, b: int|
        0 <= a < made.players.len() && 0 <= b < made.players.len() && a != b
            implies !Player::collides(
        #[trigger] made.players[a],
        #[trigger] made.players[b],
    ) by {
        if a < last && b < last {
            assert(!Player::collides(s.players[a], s.players[b]));
        } else {
            let old = if a == last { b } else { a };
            assert(PlayerByIdentity::key(s.players[old]) != sender);
            let id = s.players[old].spawnable_entity_id;
            assert(PlayerByEntity::key(s.players[old]) == id);
            assert(has_key::<Location, LocationByEntity>(s.locations, id));
            let i = position::<Location, LocationByEntity>(s.locations, id);
            assert(s.locations[i].spawnable_entity_id <= entity_counter(s.globals));
        }
    }
    assert forall|a: int, b: int|
        0 <= a < made.locations.len() && 0 <= b < made.locations.len() && a != b
            implies !Location::collides(
        #[trigger] made.locations[a],
        #[trigger] made.locations[b],
    ) by {
        let fresh = made.locations.len() - 1;
        if a < fresh && b < fresh {
            assert(!Location::collides(s.locations[a], s.locations[b]));
        }
    }
}

/// A player that has just been made is in the starting room, and in the
/// world.
pub proof fn law_new_player_is_online(
    s: StoreView,
    sender: Seq<u8>,
    name: Seq<char>,
    description: Seq<char>,
)
    requires
        valid(s),
        all_steady(s.locations),
        create_player_outcome(s, sender, name, description) is Ok,
    ensures
        ({
            let made = create_player_outcome(s, sender, name, description)->Ok_0;
            &&& online(made.locations.last())
            &&& made.locations.last().room_id == Some(START_ROOM_ID@)
            &&& all_steady(made.locations)
        }),
{
    let made = create_player_outcome(s, sender, name, description)->Ok_0;
    assert forall|i: int| 0 <= i < made.locations.len() implies online(
        #[trigger] made.locations[i],
    ) || offline(made.locations[i]) by {
        if i < s.locations.len() {
            assert(made.locations[i] == s.locations[i]);
        }
    }
}

/// Signing out takes an entity that is in a room out of it and keeps the
/// room as its last room; signing in afterwards brings it back into that
/// room and leaves it no last room, which is how it stood before if it had
/// no last room then. No other location changes. After either step every
/// location names exactly one of room and last room, if every other
/// location did before.
pub proof fn law_sign_out_then_sign_in(s: StoreView, id: u64, other: u64)
    requires
        valid(s),
        find::<Location, LocationByEntity>(s.locations, id) is Some,
        find::<Location, LocationByEntity>(s.locations, id)->0.room_id is Some,
    ensures
        sign_out_outcome(s, id) is Ok,
        sign_in_outcome(sign_out_outcome(s, id)->Ok_0, id) is Ok,
        ({
            let before = find::<Location, LocationByEntity>(s.locations, id)->0;
            let out = sign_out_outcome(s, id)->Ok_0;
            let back = sign_in_outcome(out, id)->Ok_0;
            &&& find::<Location, LocationByEntity>(out.locations, id) == Some(
                LocationView {
                    spawnable_entity_id: id,
                    room_id: None,
                    last_room_id: before.room_id,
                },
            )
            &&& offline(find::<Location, LocationByEntity>(out.locations, id)->0)
            &&& find::<Location, LocationByEntity>(back.locations, id) == Some(
                LocationView {
                    spawnable_entity_id: id,
                    room_id: before.room_id,
                    last_room_id: None,
                },
            )
            &&& online(find::<Location, LocationByEntity>(back.locations, id)->0)
            &&& other != id ==> find::<Location, LocationByEntity>(out.locations, other) == find::<
                Location,
                LocationByEntity,
            >(s.locations, other)
            &&& other != id ==> find::<Location, LocationByEntity>(back.locations, other)
                == find::<Location, LocationByEntity>(s.locations, other)
            &&& steady_elsewhere(s.locations, id) ==> all_steady(out.locations) && all_steady(
                back.locations,
            )
            &&& online(before) ==> back == s
        }),
{
    let before = find::<Location, LocationByEntity>(s.locations, id)->0;
    let at = position::<Location, LocationByEntity>(s.locations, id);
    assert(LocationByEntity::key(s.locations[at]) == id);
    lemma_relocated(s.locations, id, None, before.room_id, other);
    let out = sign_out_outcome(s, id)->Ok_0;
    lemma_relocated(out.locations, id, before.room_id, None, other);
    let back = sign_in_outcome(out, id)->Ok_0;
    lemma_found_at::<Location, LocationByEntity>(out.locations, id, at);
    if online(before) {
        assert(back.locations =~= s.locations);
    }
    if steady_elsewhere(s.locations, id) {
        assert forall|i: int| 0 <= i < out.locations.len() implies online(
            #[trigger] out.locations[i],
        ) || offline(out.locations[i]) by {
            if i != at {
                assert(out.locations[i] == s.locations[i]);
            }
        }
        assert forall|i: int| 0 <= i < back.locations.len() implies online(
            #[trigger] back.locations[i],
        ) || offline(back.locations[i]) by {
            if i != at {
                assert(back.locations[i] == s.locations[i]);
            }
        }
    }
}

/// Signing in brings an entity that has a last room back into it and
/// leaves it no last room. Every location names exactly one of room and
/// last room afterwards, if every other location did before.
pub proof fn law_sign_in_restores(s: StoreView, id: u64)
    requires
        valid(s),
        find::<Location, LocationByEntity>(s.locations, id) is Some,
        find::<Location, LocationByEntity>(s.locations, id)->0.last_room_id is Some,
    ensures
        sign_in_outcome(s, id) is Ok,
        ({
            let before = find::<Location, LocationByEntity>(s.locations, id)->0;
            let back = sign_in_outcome(s, id)->Ok_0;
            &&& find::<Location, LocationByEntity>(back.locations, id) == Some(
                LocationView {
                    spawnable_entity_id: id,
                    room_id: before.last_room_id,
                    last_room_id: None,
                },
            )
            &&& online(find::<Location, LocationByEntity>(back.locations, id)->0)
            &&& steady_elsewhere(s.locations, id) ==> all_steady(back.locations)
        }),
{
    let before = find::<Location, LocationByEntity>(s.locations, id)->0;
    let at = position::<Location, LocationByEntity>(s.locations, id);
    assert(LocationByEntity::key(s.locations[at]) == id);
    lemma_relocated(s.locations, id, before.last_room_id, None, id);
    let back = sign_in_outcome(s, id)->Ok_0;
    if steady_elsewhere(s.locations, id) {
        assert forall|i: int| 0 <= i < back.locations.len() implies online(
            #[trigger] back.locations[i],
        ) || offline(back.locations[i]) by {
            if i != at {
                assert(back.locations[i] == s.locations[i]);
            }
        }
    }
}

/// Where no exit of the entity's room goes in the direction, `go` reports
/// an invalid exit; it then leaves the store, and so the location, as it
/// was.
pub proof fn law_go_needs_an_exit(s: StoreView, id: u64, direction: Seq<char>)
    requires
        valid(s),
        find::<Location, LocationByEntity>(s.locations, id) is Some,
        find::<Location, LocationByEntity>(s.locations, id)->0.room_id is Some,
        find::<Room, RoomById>(
            s.rooms,
            find::<Location, LocationByEntity>(s.locations, id)->0.room_id->0,
        ) is Some,
        ({
            let location = find::<Location, LocationByEntity>(s.locations, id)->0;
            let room = find::<Room, RoomById>(s.rooms, location.room_id->0)->0;
            forall|e: int| 0 <= e < room.exits.len() ==> (#[trigger] room.exits[e]).direction
                != direction
        }),
    ensures
        go_outcome(s, id, direction) == Err::<StoreView, ReducerErrorView>(
            ReducerErrorView::InvalidExit,
        ),
{
}

/// An entity without a location row cannot speak, nor one that is in no
/// room: `say` reports it, and appends nothing to the chat log.
pub proof fn law_say_needs_presence(s: StoreView, id: u64, chat_text: Seq<char>, timestamp: u64)
    requires
        valid(s),
    ensures
        find::<Location, LocationByEntity>(s.locations, id) is None ==> say_outcome(
            s,
            id,
            chat_text,
            timestamp,
        ) == Err::<StoreView, ReducerErrorView>(ReducerErrorView::NoMobile),
        find::<Location, LocationByEntity>(s.locations, id) is Some && find::<
            Location,
            LocationByEntity,
        >(s.locations, id)->0.room_id is None ==> say_outcome(s, id, chat_text, timestamp) == Err::<
            StoreView,
            ReducerErrorView,
        >(ReducerErrorView::NoLocation),
        say_outcome(s, id, chat_text, timestamp) is Ok ==> {
            let said = say_outcome(s, id, chat_text, timestamp)->Ok_0;
            &&& said.room_chats.len() == s.room_chats.len() + 1
            &&& said.room_chats.last().chat_text == chat_text
            &&& Some(said.room_chats.last().room_id) == find::<Location, LocationByEntity>(
                s.locations,
                id,
            )->0.room_id
        },
{
}

/// A room that gains an exit leaves every other room as it was.
pub proof fn lemma_exit_elsewhere(
    rooms: Seq<RoomView>,
    room_id: Seq<char>,
    exit: ExitView,
    other: Seq<char>,
)
    requires
        unique::<Room>(rooms),
        has_key::<Room, RoomById>(rooms, room_id),
        other != room_id,
    ensures
        find::<Room, RoomById>(with_exit(rooms, room_id, exit), other) == find::<Room, RoomById>(
            rooms,
            other,
        ),
{
    let after = with_exit(rooms, room_id, exit);
    let at = position::<Room, RoomById>(rooms, room_id);
    assert(RoomById::key(rooms[at]) == room_id);
    if has_key::<Room, RoomById>(rooms, other) {
        lemma_exit_keeps_rooms(rooms, room_id, exit, other);
        let i = position::<Room, RoomById>(rooms, other);
        assert(RoomById::key(rooms[i]) == other);
        assert(after[i] == rooms[i]);
    }
    if has_key::<Room, RoomById>(after, other) {
        let j = position::<Room, RoomById>(after, other);
        assert(RoomById::key(after[j]) == other);
        assert(RoomById::key(rooms[j]) == other);
    }
}

/// An exit in a direction in which no exit went before is the first in
/// that direction once it is appended.
pub proof fn lemma_first_exit_appended(exits: Seq<ExitView>, exit: ExitView)
    requires
        first_exit(exits, exit.direction) is None,
    ensures
        first_exit(exits.push(exit), exit.direction) == Some(exit),
{
    let after = exits.push(exit);
    let last = exits.len() as int;
    assert forall|j: int| 0 <= j < last implies (#[trigger] after[j]).direction
        != exit.direction by {
        if exits[j].direction == exit.direction {
            lemma_some_exit_is_first(exits, exit.direction, j);
        }
    }
    assert(is_first_exit(after, exit.direction, last));
    let chosen = choose|i: int| is_first_exit(after, exit.direction, i);
    assert(chosen == last);
}

/// Where an exit goes in a direction, there is a first that does.
pub proof fn lemma_some_exit_is_first(exits: Seq<ExitView>, direction: Seq<char>, i: int)
    requires
        0 <= i < exits.len(),
        exits[i].direction == direction,
    ensures
        first_exit(exits, direction) is Some,
    decreases i,
{
    if exists|j: int| 0 <= j < i && (#[trigger] exits[j]).direction == direction {
        let j = choose|j: int| 0 <= j < i && (#[trigger] exits[j]).direction == direction;
        lemma_some_exit_is_first(exits, direction, j);
    } else {
        assert(is_first_exit(exits, direction, i));
    }
}

/// A connection with an exit back, between two rooms that lie in different
/// zones: the first room gains the exit to the second as its last exit,
/// the second room the exit back, and each of the two zones names the
/// other. No other room changes, and nothing but rooms and zones. Each new
/// exit is the one that `go` takes in its direction, unless an older exit
/// of its room goes in that direction.
pub proof fn law_two_way_connection(
    s: StoreView,
    from_room_id: Seq<char>,
    to_room_id: Seq<char>,
    from_direction: Seq<char>,
    to_direction: Seq<char>,
    from_exit_description: Seq<char>,
    to_exit_description: Seq<char>,
    other: Seq<char>,
)
    requires
        valid(s),
        from_room_id != to_room_id,
        to_direction.len() > 0,
        find::<Room, RoomById>(s.rooms, from_room_id) is Some,
        find::<Room, RoomById>(s.rooms, to_room_id) is Some,
        ({
            let from = find::<Room, RoomById>(s.rooms, from_room_id)->0;
            let to = find::<Room, RoomById>(s.rooms, to_room_id)->0;
            &&& from.zone_id != to.zone_id
            &&& has_key::<Zone, ZoneById>(s.zones, from.zone_id)
            &&& has_key::<Zone, ZoneById>(s.zones, to.zone_id)
        }),
    ensures
        create_connection_outcome(
            s,
            from_room_id,
            to_room_id,
            from_direction,
            to_direction,
            from_exit_description,
            to_exit_description,
        ) is Ok,
        ({
            let from = find::<Room, RoomById>(s.rooms, from_room_id)->0;
            let to = find::<Room, RoomById>(s.rooms, to_room_id)->0;
            let there = ExitView {
                direction: from_direction,
                examine: from_exit_description,
                destination_room_id: to_room_id,
            };
            let back = ExitView {
                direction: to_direction,
                examine: to_exit_description,
                destination_room_id: from_room_id,
            };
            let made = create_connection_outcome(
                s,
                from_room_id,
                to_room_id,
                from_direction,
                to_direction,
                from_exit_description,
                to_exit_description,
            )->Ok_0;
            &&& find::<Room, RoomById>(made.rooms, from_room_id) == Some(
                RoomView { exits: from.exits.push(there), ..from },
            )
            &&& find::<Room, RoomById>(made.rooms, to_room_id) == Some(
                RoomView { exits: to.exits.push(back), ..to },
            )
            &&& adjacent(made.zones, from.zone_id, to.zone_id)
            &&& adjacent(made.zones, to.zone_id, from.zone_id)
            &&& other != from_room_id && other != to_room_id ==> find::<Room, RoomById>(
                made.rooms,
                other,
            ) == find::<Room, RoomById>(s.rooms, other)
            &&& made == (StoreView { rooms: made.rooms, zones: made.zones, ..s })
            &&& first_exit(from.exits, from_direction) is None ==> first_exit(
                from.exits.push(there),
                from_direction,
            ) == Some(there)
            &&& first_exit(to.exits, to_direction) is None ==> first_exit(
                to.exits.push(back),
                to_direction,
            ) == Some(back)
        }),
{
    let from = find::<Room, RoomById>(s.rooms, from_room_id)->0;
    let to = find::<Room, RoomById>(s.rooms, to_room_id)->0;
    let there = ExitView {
        direction: from_direction,
        examine: from_exit_description,
        destination_room_id: to_room_id,
    };
    let back = ExitView {
        direction: to_direction,
        examine: to_exit_description,
        destination_room_id: from_room_id,
    };
    let at_from = position::<Room, RoomById>(s.rooms, from_room_id);
    let at_to = position::<Room, RoomById>(s.rooms, to_room_id);
    assert(RoomById::key(s.rooms[at_from]) == from_room_id);
    assert(RoomById::key(s.rooms[at_to]) == to_room_id);
    let rooms_there = with_exit(s.rooms, from_room_id, there);
    lemma_exit_keeps_rooms(s.rooms, from_room_id, there, from_room_id);
    lemma_exit_keeps_rooms(s.rooms, from_room_id, there, to_room_id);
    let rooms_back = with_exit(rooms_there, to_room_id, back);
    lemma_exit_keeps_rooms(rooms_there, to_room_id, back, from_room_id);
    lemma_exit_keeps_rooms(rooms_there, to_room_id, back, to_room_id);
    assert(rooms_there[at_to] == to);
    assert(rooms_back[at_from] == rooms_there[at_from]);
    if other != from_room_id && other != to_room_id {
        lemma_exit_elsewhere(s.rooms, from_room_id, there, other);
        lemma_exit_elsewhere(rooms_there, to_room_id, back, other);
    }
    let out = with_adjacency(s.zones, from.zone_id, to.zone_id);
    lemma_adjacency_added(s.rooms, s.zones, from.zone_id, to.zone_id);
    lemma_adjacency_added(s.rooms, out, to.zone_id, from.zone_id);
    lemma_adjacent_kept(out, to.zone_id, from.zone_id, from.zone_id, to.zone_id);
    if first_exit(from.exits, from_direction) is None {
        lemma_first_exit_appended(from.exits, there);
    }
    if first_exit(to.exits, to_direction) is None {
        lemma_first_exit_appended(to.exits, back);
    }
}

/// A connection without an exit back: the first room gains the exit, and
/// its zone names the zone of the second room, if that is another zone.
/// The second room gains no exit, and its zone no name.
pub proof fn law_one_way_connection(
    s: StoreView,
    from_room_id: Seq<char>,
    to_room_id: Seq<char>,
    from_direction: Seq<char>,
    from_exit_description: Seq<char>,
    to_exit_description: Seq<char>,
)
    requires
        valid(s),
        from_room_id != to_room_id,
        find::<Room, RoomById>(s.rooms, from_room_id) is Some,
        find::<Room, RoomById>(s.rooms, to_room_id) is Some,
        ({
            let from = find::<Room, RoomById>(s.rooms, from_room_id)->0;
            let to = find::<Room, RoomById>(s.rooms, to_room_id)->0;
            from.zone_id != to.zone_id ==> has_key::<Zone, ZoneById>(s.zones, from.zone_id)
        }),
    ensures
        create_connection_outcome(
            s,
            from_room_id,
            to_room_id,
            from_direction,
            Seq::<char>::empty(),
            from_exit_description,
            to_exit_description,
        ) is Ok,
        ({
            let from = find::<Room, RoomById>(s.rooms, from_room_id)->0;
            let to = find::<Room, RoomById>(s.rooms, to_room_id)->0;
            let there = ExitView {
                direction: from_direction,
                examine: from_exit_description,
                destination_room_id: to_room_id,
            };
            let made = create_connection_outcome(
                s,
                from_room_id,
                to_room_id,
                from_direction,
                Seq::<char>::empty(),
                from_exit_description,
                to_exit_description,
            )->Ok_0;
            &&& find::<Room, RoomById>(made.rooms, from_room_id) == Some(
                RoomView { exits: from.exits.push(there), ..from },
            )
            &&& find::<Room, RoomById>(made.rooms, to_room_id) == Some(to)
            &&& from.zone_id != to.zone_id ==> {
                &&& adjacent(made.zones, from.zone_id, to.zone_id)
                &&& find::<Zone, ZoneById>(made.zones, to.zone_id) == find::<Zone, ZoneById>(
                    s.zones,
                    to.zone_id,
                )
            }
            &&& from.zone_id == to.zone_id ==> made.zones == s.zones
        }),
{
    let from = find::<Room, RoomById>(s.rooms, from_room_id)->0;
    let to = find::<Room, RoomById>(s.rooms, to_room_id)->0;
    let there = ExitView {
        direction: from_direction,
        examine: from_exit_description,
        destination_room_id: to_room_id,
    };
    let at_from = position::<Room, RoomById>(s.rooms, from_room_id);
    assert(RoomById::key(s.rooms[at_from]) == from_room_id);
    lemma_exit_keeps_rooms(s.rooms, from_room_id, there, from_room_id);
    lemma_exit_elsewhere(s.rooms, from_room_id, there, to_room_id);
    if from.zone_id != to.zone_id {
        let out = with_adjacency(s.zones, from.zone_id, to.zone_id);
        let at = position::<Zone, ZoneById>(s.zones, from.zone_id);
        assert(ZoneById::key(s.zones[at]) == from.zone_id);
        lemma_adjacency_added(s.rooms, s.zones, from.zone_id, to.zone_id);
        assert forall|a: int, b: int|
            0 <= a < out.len() && 0 <= b < out.len() && a != b
                implies !Zone::collides(
            #[trigger] out[a],
            #[trigger] out[b],
        ) by {
            assert(out[a].zone_id == s.zones[a].zone_id);
            assert(out[b].zone_id == s.zones[b].zone_id);
            assert(!Zone::collides(s.zones[a], s.zones[b]));
        }
        if has_key::<Zone, ZoneById>(s.zones, to.zone_id) {
            let i = position::<Zone, ZoneById>(s.zones, to.zone_id);
            assert(ZoneById::key(s.zones[i]) == to.zone_id);
            assert(out[i] == s.zones[i]);
            lemma_found_at::<Zone, ZoneById>(out, to.zone_id, i);
        }
        if has_key::<Zone, ZoneById>(out, to.zone_id) {
            let j = position::<Zone, ZoneById>(out, to.zone_id);
            assert(ZoneById::key(out[j]) == to.zone_id);
            assert(ZoneById::key(s.zones[j]) == to.zone_id);
        }
    }
}

/// Nothing is connected to a room that does not exist: the connection is
/// refused with the id of the room that is missing, the first room's where
/// both are.
pub proof fn law_connection_needs_both_rooms(
    s: StoreView,
    from_room_id: Seq<char>,
    to_room_id: Seq<char>,
    from_direction: Seq<char>,
    to_direction: Seq<char>,
    from_exit_description: Seq<char>,
    to_exit_description: Seq<char>,
)
    requires
        valid(s),
    ensures
        find::<Room, RoomById>(s.rooms, from_room_id) is None ==> create_connection_outcome(
            s,
            from_room_id,
            to_room_id,
            from_direction,
            to_direction,
            from_exit_description,
            to_exit_description,
        ) == Err::<StoreView, ReducerErrorView>(ReducerErrorView::RoomNotFound(from_room_id)),
        find::<Room, RoomById>(s.rooms, from_room_id) is Some && find::<Room, RoomById>(
            s.rooms,
            to_room_id,
        ) is None ==> create_connection_outcome(
            s,
            from_room_id,
            to_room_id,
            from_direction,
            to_direction,
            from_exit_description,
            to_exit_description,
        ) == Err::<StoreView, ReducerErrorView>(ReducerErrorView::RoomNotFound(to_room_id)),
{
}

/// Through an exit and back: where the first exit of the entity's room in
/// one direction leads to a second room, and the first exit of that room
/// in another direction leads back, `go` in the one direction and then in
/// the other brings the entity back into its room, with the second room
/// as its last room.
pub proof fn law_go_there_and_back(s: StoreView, id: u64, there: Seq<char>, back: Seq<char>)
    requires
        valid(s),
        find::<Location, LocationByEntity>(s.locations, id) is Some,
        find::<Location, LocationByEntity>(s.locations, id)->0.room_id is Some,
        ({
            let here = find::<Location, LocationByEntity>(s.locations, id)->0.room_id->0;
            &&& find::<Room, RoomById>(s.rooms, here) is Some
            &&& first_exit(find::<Room, RoomById>(s.rooms, here)->0.exits, there) is Some
            &&& ({
                let far = first_exit(
                    find::<Room, RoomById>(s.rooms, here)->0.exits,
                    there,
                )->0.destination_room_id;
                &&& find::<Room, RoomById>(s.rooms, far) is Some
                &&& first_exit(find::<Room, RoomById>(s.rooms, far)->0.exits, back) is Some
                &&& first_exit(
                    find::<Room, RoomById>(s.rooms, far)->0.exits,
                    back,
                )->0.destination_room_id == here
            })
        }),
    ensures
        go_outcome(s, id, there) is Ok,
        go_outcome(go_outcome(s, id, there)->Ok_0, id, back) is Ok,
        ({
            let here = find::<Location, LocationByEntity>(s.locations, id)->0.room_id->0;
            let far = first_exit(
                find::<Room, RoomById>(s.rooms, here)->0.exits,
                there,
            )->0.destination_room_id;
            let gone = go_outcome(s, id, there)->Ok_0;
            let returned = go_outcome(gone, id, back)->Ok_0;
            &&& find::<Location, LocationByEntity>(gone.locations, id) == Some(
                LocationView {
                    spawnable_entity_id: id,
                    room_id: Some(far),
                    last_room_id: Some(here),
                },
            )
            &&& find::<Location, LocationByEntity>(returned.locations, id) == Some(
                LocationView {
                    spawnable_entity_id: id,
                    room_id: Some(here),
                    last_room_id: Some(far),
                },
            )
        }),
{
    let here = find::<Location, LocationByEntity>(s.locations, id)->0.room_id->0;
    let far = first_exit(
        find::<Room, RoomById>(s.rooms, here)->0.exits,
        there,
    )->0.destination_room_id;
    lemma_relocated(s.locations, id, Some(far), Some(here), id);
    let gone = go_outcome(s, id, there)->Ok_0;
    lemma_relocated(gone.locations, id, Some(here), Some(far), id);
}

/// Seeding a world that is seeded changes nothing, and seeding gives out
/// no entity id.
pub proof fn law_initialize_once(s: StoreView)
    requires
        valid(s),
    ensures
        seeded(seeded(s)) == seeded(s),
        entity_counter(seeded(s).globals) == entity_counter(s.globals),
        has_key::<Room, RoomById>(seeded(s).rooms, START_ROOM_ID@),
{
    let t = seeded(s);
    if !has_key::<Globals, GlobalsById>(s.globals, GLOBALS_ID) {
        let last = t.globals.len() - 1;
        assert(GlobalsById::key(t.globals[last]) == GLOBALS_ID);
        assert forall|a: int, b: int|
            0 <= a < t.globals.len() && 0 <= b < t.globals.len() && a != b
                implies !Globals::collides(
            #[trigger] t.globals[a],
            #[trigger] t.globals[b],
        ) by {
            if a < last && b < last {
                assert(!Globals::collides(s.globals[a], s.globals[b]));
            } else if a == last {
                assert(GlobalsById::key(s.globals[b]) != GLOBALS_ID);
            } else {
                assert(GlobalsById::key(s.globals[a]) != GLOBALS_ID);
            }
        }
        lemma_found_at::<Globals, GlobalsById>(t.globals, GLOBALS_ID, last);
    }
    if !has_key::<World, WorldById>(s.worlds, START_WORLD_ID@) {
        assert(WorldById::key(t.worlds[t.worlds.len() - 1]) == START_WORLD_ID@);
    }
    if !has_key::<Zone, ZoneById>(s.zones, START_ZONE_ID@) {
        assert(ZoneById::key(t.zones[t.zones.len() - 1]) == START_ZONE_ID@);
    }
    if !has_key::<Room, RoomById>(s.rooms, START_ROOM_ID@) {
        assert(RoomById::key(t.rooms[t.rooms.len() - 1]) == START_ROOM_ID@);
    }
}

/// Whatever waits, a call has its place in the queue.
pub proof fn lemma_slot_exists(pending: Seq<Deferred>, due: u64)
    ensures
        is_slot(pending, due, slot(pending, due)),
    decreases pending.len(),
{
    if pending.len() == 0 {
        assert(is_slot(pending, due, 0));
    } else if pending.last().due <= due {
        assert(is_slot(pending, due, pending.len() as int));
    } else {
        let front = pending.drop_last();
        lemma_slot_exists(front, due);
        let i = slot(front, due);
        assert(i > 0 ==> pending[i - 1] == front[i - 1]);
        assert forall|j: int| i <= j < pending.len() implies (#[trigger] pending[j]).due > due by {
            if j < front.len() {
                assert(pending[j] == front[j]);
            }
        }
        assert(is_slot(pending, due, i));
    }
}

/// A call that is put off waits in the order in which calls are due.
pub proof fn lemma_scheduled_in_order(s: SchedulerView, now: u64, call: DeferredCall)
    requires
        in_due_order(s.pending),
    ensures
        in_due_order(scheduled(s, now, call).pending),
        scheduled(s, now, call).pending.len() == s.pending.len() + 1,
        scheduled(s, now, call).pending[slot(s.pending, due_time(now, s.delay))] == (Deferred {
            due: due_time(now, s.delay),
            call,
        }),
{
    let due = due_time(now, s.delay);
    let at = slot(s.pending, due);
    lemma_slot_exists(s.pending, due);
    let after = scheduled(s, now, call).pending;
    assert forall|i: int, j: int| 0 <= i < j < after.len() implies (#[trigger] after[i]).due <= (
    #[trigger] after[j]).due by {
        if j < at {
            assert(after[i] == s.pending[i] && after[j] == s.pending[j]);
        } else if j == at {
            assert(after[i] == s.pending[i]);
            if at > 0 {
                assert(i == at - 1 || s.pending[i].due <= s.pending[at - 1].due);
            }
        } else if i < at {
            assert(after[i] == s.pending[i] && after[j] == s.pending[j - 1]);
            assert(s.pending[j - 1].due > due);
            assert(i == at - 1 || s.pending[i].due <= s.pending[at - 1].due);
        } else if i == at {
            assert(after[j] == s.pending[j - 1]);
        } else {
            assert(after[i] == s.pending[i - 1] && after[j] == s.pending[j - 1]);
        }
    }
}

/// Of two calls that are put off by the same delay, the one that was put
/// off no later waits before the other.
pub proof fn law_same_delay_keeps_order(
    s: SchedulerView,
    first_now: u64,
    first: DeferredCall,
    second_now: u64,
    second: DeferredCall,
)
    requires
        in_due_order(s.pending),
        first_now <= second_now,
    ensures
        ({
            let once = scheduled(s, first_now, first);
            let twice = scheduled(once, second_now, second);
            let first_at = slot(s.pending, due_time(first_now, s.delay));
            let second_at = slot(once.pending, due_time(second_now, s.delay));
            &&& 0 <= first_at < second_at < twice.pending.len()
            &&& twice.pending[first_at] == (Deferred {
                due: due_time(first_now, s.delay),
                call: first,
            })
            &&& twice.pending[second_at] == (Deferred {
                due: due_time(second_now, s.delay),
                call: second,
            })
            &&& in_due_order(twice.pending)
        }),
{
    let once = scheduled(s, first_now, first);
    let first_at = slot(s.pending, due_time(first_now, s.delay));
    let second_at = slot(once.pending, due_time(second_now, s.delay));
    lemma_scheduled_in_order(s, first_now, first);
    lemma_slot_exists(s.pending, due_time(first_now, s.delay));
    lemma_scheduled_in_order(once, second_now, second);
    lemma_slot_exists(once.pending, due_time(second_now, s.delay));
    if second_at <= first_at {
        assert(once.pending[first_at].due > due_time(second_now, s.delay));
    }
}

/// A session that opens or closes leaves the store alone: the sign-in or
/// the sign-out of the caller's player waits from then on, due after the
/// delay, and alone where nothing waited. For a caller without a player
/// nothing waits.
pub proof fn law_sessions_are_deferred(
    s: SchedulerView,
    store: StoreView,
    sender: Seq<u8>,
    now: u64,
)
    requires
        valid(store),
        in_due_order(s.pending),
    ensures
        find::<Player, PlayerByIdentity>(store.players, sender) is None ==> connected(
            s,
            store,
            sender,
            now,
        ) == s && disconnected(s, store, sender, now) == s,
        find::<Player, PlayerByIdentity>(store.players, sender) is Some ==> ({
            let id = find::<Player, PlayerByIdentity>(store.players, sender)->0.spawnable_entity_id;
            let due = due_time(now, s.delay);
            let at = slot(s.pending, due);
            &&& connected(s, store, sender, now).pending == s.pending.insert(
                at,
                Deferred { due, call: DeferredCall::SignIn(id) },
            )
            &&& disconnected(s, store, sender, now).pending == s.pending.insert(
                at,
                Deferred { due, call: DeferredCall::SignOut(id) },
            )
            &&& 0 <= at <= s.pending.len()
            &&& in_due_order(connected(s, store, sender, now).pending)
            &&& in_due_order(disconnected(s, store, sender, now).pending)
            &&& s.pending.len() == 0 ==> connected(s, store, sender, now).pending == seq![
                Deferred { due, call: DeferredCall::SignIn(id) },
            ] && disconnected(s, store, sender, now).pending == seq![
                Deferred { due, call: DeferredCall::SignOut(id) },
            ]
        }),
{
    if find::<Player, PlayerByIdentity>(store.players, sender) is Some {
        let id = find::<Player, PlayerByIdentity>(store.players, sender)->0.spawnable_entity_id;
        let due = due_time(now, s.delay);
        lemma_slot_exists(s.pending, due);
        lemma_scheduled_in_order(s, now, DeferredCall::SignIn(id));
        lemma_scheduled_in_order(s, now, DeferredCall::SignOut(id));
        if s.pending.len() == 0 {
            assert(connected(s, store, sender, now).pending =~= seq![
                Deferred { due, call: DeferredCall::SignIn(id) },
            ]);
            assert(disconnected(s, store, sender, now).pending =~= seq![
                Deferred { due, call: DeferredCall::SignOut(id) },
            ]);
        }
    }
}

/// The counter of entity ids only increases: whatever call succeeds, the
/// counter is afterwards what it was or more, and the entities that were
/// there keep their ids. Only the making of a player moves it, by one.
pub proof fn law_counter_only_increases(
    s: StoreView,
    sender: Seq<u8>,
    timestamp: u64,
    call: ReducerCallView,
)
    requires
        valid(s),
        store_outcome(s, sender, timestamp, call) is Ok,
    ensures
        ({
            let after = store_outcome(s, sender, timestamp, call)->Ok_0;
            &&& entity_counter(after.globals) >= entity_counter(s.globals)
            &&& call is CreatePlayer ==> entity_counter(after.globals) == entity_counter(s.globals)
                + 1
            &&& !(call is CreatePlayer) ==> entity_counter(after.globals) == entity_counter(
                s.globals,
            )
        }),
{
    match call {
        ReducerCallView::Initialize => {
            law_initialize_once(s);
        },
        ReducerCallView::CreatePlayer { name, description } => {
            law_one_player_per_caller(s, sender, name, description, name, description);
        },
        _ => {},
    }
}

/// The opening and the closing of a session never fail and never touch
/// the store.
pub proof fn law_sessions_leave_the_store(s: EngineView, sender: Seq<u8>, timestamp: u64)
    ensures
        invoke_outcome(s, sender, timestamp, ReducerCallView::Connect) is Ok,
        invoke_outcome(s, sender, timestamp, ReducerCallView::Disconnect) is Ok,
        invoke_outcome(s, sender, timestamp, ReducerCallView::Connect)->Ok_0.store == s.store,
        invoke_outcome(s, sender, timestamp, ReducerCallView::Disconnect)->Ok_0.store == s.store,
{
}

/// No call that is due is held up by one that is not: as long as some
/// call in the queue is due, the first one is, and taking the first one
/// out moves each of the others one place ahead.
pub proof fn law_due_calls_are_not_held_up(pending: Seq<Deferred>, i: int, now: u64)
    requires
        in_due_order(pending),
        0 <= i < pending.len(),
        pending[i].due <= now,
    ensures
        pending[0].due <= now,
        in_due_order(pending.remove(0)),
        i > 0 ==> pending.remove(0)[i - 1] == pending[i],
{
    let rest = pending.remove(0);
    assert forall|a: int, b: int| 0 <= a < b < rest.len() implies (#[trigger] rest[a]).due <= (
    #[trigger] rest[b]).due by {
        assert(rest[a] == pending[a + 1] && rest[b] == pending[b + 1]);
    }
}

} // verus!
