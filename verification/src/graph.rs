//! The world graph: worlds, zones, rooms and the exits between rooms.

use crate::errors::{EntityKind, ReducerError, ReducerErrorView};
use crate::store::{find, has_key, lemma_found_at, position, unique, Column, Row, Table};
use crate::tables::{
    exit_views, text_views, Exit, ExitView, Location, LocationByEntity, Room, RoomById, RoomView,
    World, WorldById, WorldView, Zone, ZoneById, ZoneView,
};
use crate::world::{
    adjacent, crossings_recorded, exits_lead_somewhere, lemma_room_added, lemma_zone_added,
    named_once, relocate, relocated, Store, StoreView,
};
use vstd::prelude::*;

verus! {

/// What `create_world` makes of the store.
pub open spec fn create_world_outcome(
    s: StoreView,
    world_id: Seq<char>,
    name: Seq<char>,
    description: Seq<char>,
) -> Result<StoreView, ReducerErrorView> {
    if has_key::<World, WorldById>(s.worlds, world_id) {
        Err(ReducerErrorView::AlreadyExists(EntityKind::World))
    } else {
        Ok(StoreView { worlds: s.worlds.push(WorldView { world_id, name, description }), ..s })
    }
}

/// Makes a world, unless one is there under the id.
pub fn create_world(
    store: &mut Store,
    world_id: String,
    name: String,
    description: String,
) -> (outcome: Result<(), ReducerError>)
    requires
        old(store).wf(),
    ensures
        final(store).wf(),
        match outcome {
            Ok(()) => create_world_outcome(old(store)@, world_id@, name@, description@) == Ok::<
                StoreView,
                ReducerErrorView,
            >(final(store)@),
            Err(error) => {
                &&& create_world_outcome(old(store)@, world_id@, name@, description@) == Err::<
                    StoreView,
                    ReducerErrorView,
                >(error@)
                &&& final(store)@ == old(store)@
            },
        },
{
    if store.worlds.lookup_by_unique::<WorldById>(&world_id).is_some() {
        return Err(ReducerError::AlreadyExists(EntityKind::World));
    }
    let row = World { world_id, name, description };
    proof {
        let rows = store.worlds@;
        assert forall|i: int| 0 <= i < rows.len() implies !World::collides(
            #[trigger] rows[i],
            row@,
        ) by {
            assert(WorldById::key(rows[i]) != row@.world_id);
        }
    }
    let stored = store.worlds.insert(row);
    assert(stored is Ok);
    Ok(())
}

/// What `create_zone` makes of the store.
pub open spec fn create_zone_outcome(
    s: StoreView,
    zone_id: Seq<char>,
    world_id: Seq<char>,
    name: Seq<char>,
    description: Seq<char>,
) -> Result<StoreView, ReducerErrorView> {
    if has_key::<Zone, ZoneById>(s.zones, zone_id) {
        Err(ReducerErrorView::AlreadyExists(EntityKind::Zone))
    } else {
        Ok(
            StoreView {
                zones: s.zones.push(
                    ZoneView {
                        zone_id,
                        world_id,
                        name,
                        description,
                        connecting_zones: Seq::empty(),
                    },
                ),
                ..s
            },
        )
    }
}

/// Makes a zone that no other zone connects to yet, unless one is there
/// under the id.
pub fn create_zone(
    store: &mut Store,
    zone_id: String,
    world_id: String,
    name: String,
    description: String,
) -> (outcome: Result<(), ReducerError>)
    requires
        old(store).wf(),
    ensures
        final(store).wf(),
        match outcome {
            Ok(()) => create_zone_outcome(old(store)@, zone_id@, world_id@, name@, description@)
                == Ok::<StoreView, ReducerErrorView>(final(store)@),
            Err(error) => {
                &&& create_zone_outcome(old(store)@, zone_id@, world_id@, name@, description@)
                    == Err::<StoreView, ReducerErrorView>(error@)
                &&& final(store)@ == old(store)@
            },
        },
{
    if store.zones.lookup_by_unique::<ZoneById>(&zone_id).is_some() {
        return Err(ReducerError::AlreadyExists(EntityKind::Zone));
    }
    let row = Zone { zone_id, world_id, name, description, connecting_zones: Vec::new() };
    proof {
        let rows = store.zones@;
        assert(row@.connecting_zones =~= Seq::empty());
        assert forall|i: int| 0 <= i < rows.len() implies !Zone::collides(
            #[trigger] rows[i],
            row@,
        ) by {
            assert(ZoneById::key(rows[i]) != row@.zone_id);
        }
        lemma_zone_added(store.rooms@, rows, row@);
    }
    let stored = store.zones.insert(row);
    assert(stored is Ok);
    Ok(())
}

/// What `create_room` makes of the store.
pub open spec fn create_room_outcome(
    s: StoreView,
    room_id: Seq<char>,
    zone_id: Seq<char>,
    name: Seq<char>,
    description: Seq<char>,
) -> Result<StoreView, ReducerErrorView> {
    if has_key::<Room, RoomById>(s.rooms, room_id) {
        Err(ReducerErrorView::AlreadyExists(EntityKind::Room))
    } else {
        Ok(
            StoreView {
                rooms: s.rooms.push(
                    RoomView { room_id, zone_id, name, description, exits: Seq::empty() },
                ),
                ..s
            },
        )
    }
}

/// Makes a room without exits, unless one is there under the id.
pub fn create_room(
    store: &mut Store,
    room_id: String,
    zone_id: String,
    name: String,
    description: String,
) -> (outcome: Result<(), ReducerError>)
    requires
        old(store).wf(),
    ensures
        final(store).wf(),
        match outcome {
            Ok(()) => create_room_outcome(old(store)@, room_id@, zone_id@, name@, description@)
                == Ok::<StoreView, ReducerErrorView>(final(store)@),
            Err(error) => {
                &&& create_room_outcome(old(store)@, room_id@, zone_id@, name@, description@)
                    == Err::<StoreView, ReducerErrorView>(error@)
                &&& final(store)@ == old(store)@
            },
        },
{
    if store.rooms.lookup_by_unique::<RoomById>(&room_id).is_some() {
        return Err(ReducerError::AlreadyExists(EntityKind::Room));
    }
    let row = Room { room_id, zone_id, name, description, exits: Vec::new() };
    proof {
        let rows = store.rooms@;
        assert(row@.exits =~= Seq::empty());
        assert forall|i: int| 0 <= i < rows.len() implies !Room::collides(
            #[trigger] rows[i],
            row@,
        ) by {
            assert(RoomById::key(rows[i]) != row@.room_id);
        }
        lemma_room_added(rows, store.zones@, row@);
    }
    let stored = store.rooms.insert(row);
    assert(stored is Ok);
    Ok(())
}

/// The rooms once the room `room_id` has `exit` as its last exit.
pub open spec fn with_exit(rooms: Seq<RoomView>, room_id: Seq<char>, exit: ExitView) -> Seq<
    RoomView,
> {
    let at = position::<Room, RoomById>(rooms, room_id);
    rooms.update(at, RoomView { exits: rooms[at].exits.push(exit), ..rooms[at] })
}

/// The zones once the zone `zone_id` names `other` among its connecting
/// zones: as its last one, where it did not name it before.
pub open spec fn with_adjacency(zones: Seq<ZoneView>, zone_id: Seq<char>, other: Seq<char>) -> Seq<
    ZoneView,
> {
    let at = position::<Zone, ZoneById>(zones, zone_id);
    if zones[at].connecting_zones.contains(other) {
        zones
    } else {
        zones.update(
            at,
            ZoneView { connecting_zones: zones[at].connecting_zones.push(other), ..zones[at] },
        )
    }
}

/// What `create_connection` makes of the store.
pub open spec fn create_connection_outcome(
    s: StoreView,
    from_room_id: Seq<char>,
    to_room_id: Seq<char>,
    from_direction: Seq<char>,
    to_direction: Seq<char>,
    from_exit_description: Seq<char>,
    to_exit_description: Seq<char>,
) -> Result<StoreView, ReducerErrorView> {
    match find::<Room, RoomById>(s.rooms, from_room_id) {
        None => Err(ReducerErrorView::RoomNotFound(from_room_id)),
        Some(from) => match find::<Room, RoomById>(s.rooms, to_room_id) {
            None => Err(ReducerErrorView::RoomNotFound(to_room_id)),
            Some(to) => {
                let crossing = from.zone_id != to.zone_id;
                let two_way = to_direction.len() > 0;
                if crossing && !has_key::<Zone, ZoneById>(s.zones, from.zone_id) {
                    Err(ReducerErrorView::ZoneNotFound(from.zone_id))
                } else if crossing && two_way && !has_key::<Zone, ZoneById>(s.zones, to.zone_id) {
                    Err(ReducerErrorView::ZoneNotFound(to.zone_id))
                } else {
                    let there = with_exit(
                        s.rooms,
                        from_room_id,
                        ExitView {
                            direction: from_direction,
                            examine: from_exit_description,
                            destination_room_id: to_room_id,
                        },
                    );
                    let back = with_exit(
                        there,
                        to_room_id,
                        ExitView {
                            direction: to_direction,
                            examine: to_exit_description,
                            destination_room_id: from_room_id,
                        },
                    );
                    let out = with_adjacency(s.zones, from.zone_id, to.zone_id);
                    let home = with_adjacency(out, to.zone_id, from.zone_id);
                    Ok(
                        StoreView {
                            rooms: if two_way { back } else { there },
                            zones: if !crossing { s.zones } else if two_way { home } else { out },
                            ..s
                        },
                    )
                }
            },
        },
    }
}

/// An adjacency that a zone gains takes none away.
pub proof fn lemma_adjacent_kept(
    zones: Seq<ZoneView>,
    zone_id: Seq<char>,
    other: Seq<char>,
    from: Seq<char>,
    to: Seq<char>,
)
    requires
        has_key::<Zone, ZoneById>(zones, zone_id),
        adjacent(zones, from, to),
    ensures
        adjacent(with_adjacency(zones, zone_id, other), from, to),
{
    let after = with_adjacency(zones, zone_id, other);
    let at = position::<Zone, ZoneById>(zones, zone_id);
    let z = choose|z: int|
        0 <= z < zones.len() && (#[trigger] zones[z]).zone_id == from
            && zones[z].connecting_zones.contains(to);
    if !zones[at].connecting_zones.contains(other) && z == at {
        let names = zones[at].connecting_zones;
        let i = choose|i: int| 0 <= i < names.len() && names[i] == to;
        assert(names.push(other)[i] == to);
    }
    assert(after[z].zone_id == from && after[z].connecting_zones.contains(to));
}

/// The zone that gains an adjacency has it, the zones keep their ids, and
/// what held of the zones holds on.
pub proof fn lemma_adjacency_added(
    rooms: Seq<RoomView>,
    zones: Seq<ZoneView>,
    zone_id: Seq<char>,
    other: Seq<char>,
)
    requires
        crossings_recorded(rooms, zones),
        named_once(zones),
        has_key::<Zone, ZoneById>(zones, zone_id),
    ensures
        crossings_recorded(rooms, with_adjacency(zones, zone_id, other)),
        named_once(with_adjacency(zones, zone_id, other)),
        adjacent(with_adjacency(zones, zone_id, other), zone_id, other),
        forall|id: Seq<char>|
            has_key::<Zone, ZoneById>(zones, id) ==> #[trigger] has_key::<Zone, ZoneById>(
                with_adjacency(zones, zone_id, other),
                id,
            ),
{
    let after = with_adjacency(zones, zone_id, other);
    let at = position::<Zone, ZoneById>(zones, zone_id);
    assert(ZoneById::key(zones[at]) == zone_id);
    if !zones[at].connecting_zones.contains(other) {
        let names = zones[at].connecting_zones.push(other);
        assert(names[names.len() - 1] == other);
    }
    assert(after[at].zone_id == zone_id && after[at].connecting_zones.contains(other));
    assert forall|z: int| 0 <= z < after.len() implies (
    #[trigger] after[z]).connecting_zones.no_duplicates() by {
        assert(zones[z].connecting_zones.no_duplicates());
        if z == at && !zones[at].connecting_zones.contains(other) {
            let before = zones[at].connecting_zones;
            let names = before.push(other);
            assert forall|i: int, j: int|
                0 <= i < names.len() && 0 <= j < names.len() && i != j implies names[i]
                != names[j] by {
                if i < before.len() && j < before.len() {
                    assert(before[i] != before[j]);
                } else if i < before.len() {
                    assert(before[i] != other);
                } else {
                    assert(before[j] != other);
                }
            }
        }
    }
    assert forall|id: Seq<char>| has_key::<Zone, ZoneById>(zones, id) implies #[trigger] has_key::<
        Zone,
        ZoneById,
    >(after, id) by {
        let i = position::<Zone, ZoneById>(zones, id);
        assert(ZoneById::key(after[i]) == id);
    }
    assert forall|r: int, e: int, d: int|
        0 <= r < rooms.len() && 0 <= e < rooms[r].exits.len() && 0 <= d < rooms.len() && (
        #[trigger] rooms[d]).room_id == (#[trigger] rooms[r].exits[e]).destination_room_id
            && rooms[d].zone_id != rooms[r].zone_id implies adjacent(
        after,
        rooms[r].zone_id,
        rooms[d].zone_id,
    ) by {
        lemma_adjacent_kept(zones, zone_id, other, rooms[r].zone_id, rooms[d].zone_id);
    }
}

/// The rooms keep their ids, zones and places when one of them gains an
/// exit.
pub proof fn lemma_exit_keeps_rooms(
    rooms: Seq<RoomView>,
    room_id: Seq<char>,
    exit: ExitView,
    id: Seq<char>,
)
    requires
        unique::<Room>(rooms),
        has_key::<Room, RoomById>(rooms, room_id),
        has_key::<Room, RoomById>(rooms, id),
    ensures
        unique::<Room>(with_exit(rooms, room_id, exit)),
        has_key::<Room, RoomById>(with_exit(rooms, room_id, exit), id),
        position::<Room, RoomById>(with_exit(rooms, room_id, exit), id) == position::<
            Room,
            RoomById,
        >(rooms, id),
        with_exit(rooms, room_id, exit)[position::<Room, RoomById>(rooms, id)].zone_id
            == rooms[position::<Room, RoomById>(rooms, id)].zone_id,
{
    let after = with_exit(rooms, room_id, exit);
    let at = position::<Room, RoomById>(rooms, room_id);
    let i = position::<Room, RoomById>(rooms, id);
    assert forall|a: int, b: int|
        0 <= a < after.len() && 0 <= b < after.len() && a != b implies !Room::collides(
        #[trigger] after[a],
        #[trigger] after[b],
    ) by {
        assert(after[a].room_id == rooms[a].room_id);
        assert(after[b].room_id == rooms[b].room_id);
        assert(!Room::collides(rooms[a], rooms[b]));
    }
    assert(RoomById::key(after[i]) == id);
    lemma_found_at::<Room, RoomById>(after, id, i);
}

/// An exit to a room that exists keeps what holds of exits, where the zone
/// of its room names the zone that it leads into.
pub proof fn lemma_exit_added(
    rooms: Seq<RoomView>,
    zones: Seq<ZoneView>,
    room_id: Seq<char>,
    exit: ExitView,
)
    requires
        exits_lead_somewhere(rooms),
        crossings_recorded(rooms, zones),
        unique::<Room>(rooms),
        has_key::<Room, RoomById>(rooms, room_id),
        has_key::<Room, RoomById>(rooms, exit.destination_room_id),
        ({
            let from = rooms[position::<Room, RoomById>(rooms, room_id)];
            let to = rooms[position::<Room, RoomById>(rooms, exit.destination_room_id)];
            from.zone_id != to.zone_id ==> adjacent(zones, from.zone_id, to.zone_id)
        }),
    ensures
        exits_lead_somewhere(with_exit(rooms, room_id, exit)),
        crossings_recorded(with_exit(rooms, room_id, exit), zones),
{
    let after = with_exit(rooms, room_id, exit);
    let at = position::<Room, RoomById>(rooms, room_id);
    let last = rooms[at].exits.len() as int;
    assert forall|r: int, e: int|
        0 <= r < after.len() && 0 <= e < after[r].exits.len() implies has_key::<Room, RoomById>(
        after,
        (#[trigger] after[r].exits[e]).destination_room_id,
    ) by {
        let to = after[r].exits[e].destination_room_id;
        if r == at && e == last {
            assert(to == exit.destination_room_id);
        } else {
            assert(after[r].exits[e] == rooms[r].exits[e]);
        }
        let i = position::<Room, RoomById>(rooms, to);
        assert(RoomById::key(after[i]) == to);
    }
    assert forall|r: int, e: int, d: int|
        0 <= r < after.len() && 0 <= e < after[r].exits.len() && 0 <= d < after.len() && (
        #[trigger] after[d]).room_id == (#[trigger] after[r].exits[e]).destination_room_id
            && after[d].zone_id != after[r].zone_id implies adjacent(
        zones,
        after[r].zone_id,
        after[d].zone_id,
    ) by {
        assert(after[d].room_id == rooms[d].room_id && after[d].zone_id == rooms[d].zone_id);
        assert(after[r].zone_id == rooms[r].zone_id);
        if r == at && e == last {
            lemma_found_at::<Room, RoomById>(rooms, exit.destination_room_id, d);
        } else {
            assert(after[r].exits[e] == rooms[r].exits[e]);
        }
    }
}

/// Gives the room `room_id` a further exit.
fn add_exit(rooms: &mut Table<Room>, room_id: &String, exit: Exit)
    requires
        old(rooms).wf(),
        has_key::<Room, RoomById>(old(rooms)@, room_id@),
    ensures
        final(rooms).wf(),
        final(rooms)@ == with_exit(old(rooms)@, room_id@, exit@),
{
    let ghost at = position::<Room, RoomById>(rooms@, room_id@);
    let ghost before = rooms@;
    let mut row = match rooms.lookup_by_unique::<RoomById>(room_id) {
        Some(room) => room.replica(),
        None => {
            return ;
        },
    };
    let ghost held = row@;
    let ghost given = exit@;
    row.exits.push(exit);
    proof {
        assert(row@.exits =~= held.exits.push(given));
        assert forall|j: int| 0 <= j < before.len() && j != at implies !Room::collides(
            #[trigger] before[j],
            row@,
        ) by {}
    }
    let written = rooms.update_by_key::<RoomById>(room_id, row);
    assert(written is Ok);
}

/// Whether `text` is among `texts`.
pub(crate) fn names(texts: &Vec<String>, text: &String) -> (hit: bool)
    ensures
        hit == text_views(texts@).contains(text@),
{
    let mut i: usize = 0;
    while i < texts.len()
        invariant
            i <= texts.len(),
            forall|k: int| 0 <= k < i ==> text_views(texts@)[k] != text@,
        decreases texts.len() - i,
    {
        if texts[i] == *text {
            assert(text_views(texts@)[i as int] == text@);
            return true;
        }
        i += 1;
    }
    false
}

/// Lets the zone `zone_id` name `other` among its connecting zones.
fn add_adjacency(zones: &mut Table<Zone>, zone_id: &String, other: &String)
    requires
        old(zones).wf(),
        has_key::<Zone, ZoneById>(old(zones)@, zone_id@),
    ensures
        final(zones).wf(),
        final(zones)@ == with_adjacency(old(zones)@, zone_id@, other@),
{
    let ghost at = position::<Zone, ZoneById>(zones@, zone_id@);
    let ghost before = zones@;
    let mut row = match zones.lookup_by_unique::<ZoneById>(zone_id) {
        Some(zone) => {
            if names(&zone.connecting_zones, other) {
                return ;
            }
            zone.replica()
        },
        None => {
            return ;
        },
    };
    let ghost held = row@;
    row.connecting_zones.push(other.clone());
    proof {
        assert(row@.connecting_zones =~= held.connecting_zones.push(other@));
        assert forall|j: int| 0 <= j < before.len() && j != at implies !Zone::collides(
            #[trigger] before[j],
            row@,
        ) by {}
    }
    let written = zones.update_by_key::<ZoneById>(zone_id, row);
    assert(written is Ok);
}

/// Makes an exit from one room to another and, where `to_direction` is not
/// empty, the exit back. Where the rooms lie in different zones, the zone
/// of the first room comes to name the zone of the second among its
/// connecting zones, and with an exit back the second names the first.
/// Nothing changes unless both rooms exist, and the zones that gain a name.
pub fn create_connection(
    store: &mut Store,
    from_room_id: String,
    to_room_id: String,
    from_direction: String,
    to_direction: String,
    from_exit_description: String,
    to_exit_description: String,
) -> (outcome: Result<(), ReducerError>)
    requires
        old(store).wf(),
    ensures
        final(store).wf(),
        match outcome {
            Ok(()) => create_connection_outcome(
                old(store)@,
                from_room_id@,
                to_room_id@,
                from_direction@,
                to_direction@,
                from_exit_description@,
                to_exit_description@,
            ) == Ok::<StoreView, ReducerErrorView>(final(store)@),
            Err(error) => {
                &&& create_connection_outcome(
                    old(store)@,
                    from_room_id@,
                    to_room_id@,
                    from_direction@,
                    to_direction@,
                    from_exit_description@,
                    to_exit_description@,
                ) == Err::<StoreView, ReducerErrorView>(error@)
                &&& final(store)@ == old(store)@
            },
        },
{
    let from_zone_id = match store.rooms.lookup_by_unique::<RoomById>(&from_room_id) {
        Some(room) => room.zone_id.clone(),
        None => {
            return Err(ReducerError::RoomNotFound(from_room_id));
        },
    };
    let to_zone_id = match store.rooms.lookup_by_unique::<RoomById>(&to_room_id) {
        Some(room) => room.zone_id.clone(),
        None => {
            return Err(ReducerError::RoomNotFound(to_room_id));
        },
    };
    let crossing = !(from_zone_id == to_zone_id);
    let two_way = !to_direction.as_str().is_empty();
    if crossing {
        if store.zones.lookup_by_unique::<ZoneById>(&from_zone_id).is_none() {
            return Err(ReducerError::ZoneNotFound(from_zone_id));
        }
        if two_way && store.zones.lookup_by_unique::<ZoneById>(&to_zone_id).is_none() {
            return Err(ReducerError::ZoneNotFound(to_zone_id));
        }
        proof {
            lemma_adjacency_added(store.rooms@, store.zones@, from_zone_id@, to_zone_id@);
        }
        add_adjacency(&mut store.zones, &from_zone_id, &to_zone_id);
        if two_way {
            proof {
                lemma_adjacency_added(store.rooms@, store.zones@, to_zone_id@, from_zone_id@);
                lemma_adjacent_kept(
                    store.zones@,
                    to_zone_id@,
                    from_zone_id@,
                    from_zone_id@,
                    to_zone_id@,
                );
            }
            add_adjacency(&mut store.zones, &to_zone_id, &from_zone_id);
        }
    }
    let there = Exit {
        direction: from_direction,
        examine: from_exit_description,
        destination_room_id: to_room_id.clone(),
    };
    proof {
        lemma_exit_added(store.rooms@, store.zones@, from_room_id@, there@);
        lemma_exit_keeps_rooms(store.rooms@, from_room_id@, there@, to_room_id@);
        lemma_exit_keeps_rooms(store.rooms@, from_room_id@, there@, from_room_id@);
    }
    add_exit(&mut store.rooms, &from_room_id, there);
    if two_way {
        let back = Exit {
            direction: to_direction,
            examine: to_exit_description,
            destination_room_id: from_room_id,
        };
        proof {
            lemma_exit_added(store.rooms@, store.zones@, to_room_id@, back@);
        }
        add_exit(&mut store.rooms, &to_room_id, back);
    }
    Ok(())
}

/// The exit at `i` goes in `direction`, and none before it does.
pub open spec fn is_first_exit(exits: Seq<ExitView>, direction: Seq<char>, i: int) -> bool {
    &&& 0 <= i < exits.len()
    &&& exits[i].direction == direction
    &&& forall|j: int| 0 <= j < i ==> (#[trigger] exits[j]).direction != direction
}

/// The first exit that goes in `direction`.
pub open spec fn first_exit(exits: Seq<ExitView>, direction: Seq<char>) -> Option<ExitView> {
    if exists|i: int| is_first_exit(exits, direction, i) {
        Some(exits[choose|i: int| is_first_exit(exits, direction, i)])
    } else {
        None
    }
}

/// The first of `exits` that goes in `direction`: where several do, those
/// behind the first are never taken.
pub fn find_exit<'a>(exits: &'a Vec<Exit>, direction: &String) -> (found: Option<&'a Exit>)
    ensures
        match found {
            Some(exit) => first_exit(exit_views(exits@), direction@) == Some(exit@),
            None => first_exit(exit_views(exits@), direction@) is None,
        },
{
    let ghost views = exit_views(exits@);
    let mut i: usize = 0;
    while i < exits.len()
        invariant
            i <= exits.len(),
            views == exit_views(exits@),
            forall|k: int| 0 <= k < i ==> (#[trigger] views[k]).direction != direction@,
        decreases exits.len() - i,
    {
        if exits[i].direction == *direction {
            proof {
                assert(is_first_exit(views, direction@, i as int));
                let chosen = choose|c: int| is_first_exit(views, direction@, c);
                assert(chosen == i);
            }
            return Some(&exits[i]);
        }
        i += 1;
    }
    assert forall|c: int| !is_first_exit(views, direction@, c) by {
        if 0 <= c < views.len() {
            assert(views[c].direction != direction@);
        }
    }
    None
}

/// What `go` makes of the store.
pub open spec fn go_outcome(
    s: StoreView,
    source_spawnable_entity_id: u64,
    direction: Seq<char>,
) -> Result<StoreView, ReducerErrorView> {
    match find::<Location, LocationByEntity>(s.locations, source_spawnable_entity_id) {
        None => Err(ReducerErrorView::NoMobile),
        Some(location) => match location.room_id {
            None => Err(ReducerErrorView::NoLocation),
            Some(room_id) => match find::<Room, RoomById>(s.rooms, room_id) {
                None => Err(ReducerErrorView::RoomNotFound(room_id)),
                Some(room) => match first_exit(room.exits, direction) {
                    None => Err(ReducerErrorView::InvalidExit),
                    Some(exit) => Ok(
                        StoreView {
                            locations: relocated(
                                s.locations,
                                source_spawnable_entity_id,
                                Some(exit.destination_room_id),
                                Some(room_id),
                            ),
                            ..s
                        },
                    ),
                },
            },
        },
    }
}

/// Moves an entity through the first exit of its room that goes in
/// `exit_direction`: the room that the exit leads to becomes its room, and
/// the room that it leaves its last room.
pub fn go(
    store: &mut Store,
    source_spawnable_entity_id: u64,
    exit_direction: String,
) -> (outcome: Result<(), ReducerError>)
    requires
        old(store).wf(),
    ensures
        final(store).wf(),
        match outcome {
            Ok(()) => go_outcome(old(store)@, source_spawnable_entity_id, exit_direction@) == Ok::<
                StoreView,
                ReducerErrorView,
            >(final(store)@),
            Err(error) => {
                &&& go_outcome(old(store)@, source_spawnable_entity_id, exit_direction@) == Err::<
                    StoreView,
                    ReducerErrorView,
                >(error@)
                &&& final(store)@ == old(store)@
            },
        },
{
    let room_id = match store.locations.lookup_by_unique::<LocationByEntity>(
        &source_spawnable_entity_id,
    ) {
        None => {
            return Err(ReducerError::NoMobile);
        },
        Some(location) => match &location.room_id {
            None => {
                return Err(ReducerError::NoLocation);
            },
            Some(room_id) => room_id.clone(),
        },
    };
    let destination = match store.rooms.lookup_by_unique::<RoomById>(&room_id) {
        None => {
            return Err(ReducerError::RoomNotFound(room_id));
        },
        Some(room) => match find_exit(&room.exits, &exit_direction) {
            None => {
                return Err(ReducerError::InvalidExit);
            },
            Some(exit) => exit.destination_room_id.clone(),
        },
    };
    relocate(store, source_spawnable_entity_id, Some(destination), Some(room_id));
    Ok(())
}

} // verus!
