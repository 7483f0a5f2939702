//! Whether the tables of a store agree, decided by reading them: for a
//! store whose rows were not made by the reducers.

use crate::graph::names;
use crate::store::{has_key, lemma_found_at, position, unique, Column};
use crate::tables::{
    GlobalsById, Location, LocationByEntity, Mobile, MobileByEntity, Player, PlayerByEntity, Room,
    RoomById, RoomView, Zone, ZoneById, ZoneView,
};
use crate::tables::text_views;
use crate::world::{
    adjacent, consistent, crossings_recorded, entities_whole, entity_counter,
    exits_lead_somewhere, named_once, Store, GLOBALS_ID,
};
use vstd::prelude::*;

verus! {

/// Among zones that obey their constraints, one zone names another where
/// the row under its id does.
proof fn lemma_adjacent_by_id(zones: Seq<ZoneView>, from: Seq<char>, to: Seq<char>)
    requires
        unique::<Zone>(zones),
    ensures
        adjacent(zones, from, to) == (has_key::<Zone, ZoneById>(zones, from)
            && zones[position::<Zone, ZoneById>(zones, from)].connecting_zones.contains(to)),
{
    if adjacent(zones, from, to) {
        let z = choose|z: int|
            0 <= z < zones.len() && (#[trigger] zones[z]).zone_id == from
                && zones[z].connecting_zones.contains(to);
        lemma_found_at::<Zone, ZoneById>(zones, from, z);
    }
    if has_key::<Zone, ZoneById>(zones, from) {
        let at = position::<Zone, ZoneById>(zones, from);
        assert(ZoneById::key(zones[at]) == from);
    }
}

/// Whether every entity has all three of its rows, under an id that the
/// counter has given out.
fn entities_are_whole(store: &Store) -> (ok: bool)
    requires
        store.tables_wf(),
    ensures
        ok == entities_whole(store@),
{
    let key = GLOBALS_ID;
    let counter = match store.globals.lookup_by_unique::<GlobalsById>(&key) {
        Some(row) => row.spawnable_entity_id_counter,
        None => 0,
    };
    let locations = store.locations.iterate();
    let mut i: usize = 0;
    while i < locations.len()
        invariant
            i <= locations.len(),
            store.tables_wf(),
            counter == entity_counter(store@.globals),
            locations@.len() == store@.locations.len(),
            forall|k: int|
                0 <= k < locations@.len() ==> (#[trigger] locations@[k])@ == store@.locations[k],
            forall|k: int|
                0 <= k < i ==> {
                    let id = (#[trigger] store@.locations[k]).spawnable_entity_id;
                    &&& id <= counter
                    &&& has_key::<Mobile, MobileByEntity>(store@.mobiles, id)
                    &&& has_key::<Player, PlayerByEntity>(store@.players, id)
                },
        decreases locations.len() - i,
    {
        let id = locations[i].spawnable_entity_id;
        assert(LocationByEntity::key(store@.locations[i as int]) == id);
        assert(has_key::<Location, LocationByEntity>(store@.locations, id));
        if id > counter {
            return false;
        }
        if store.mobiles.lookup_by_unique::<MobileByEntity>(&id).is_none() {
            return false;
        }
        if store.players.lookup_by_unique::<PlayerByEntity>(&id).is_none() {
            return false;
        }
        i += 1;
    }
    let mobiles = store.mobiles.iterate();
    let mut j: usize = 0;
    while j < mobiles.len()
        invariant
            j <= mobiles.len(),
            store.tables_wf(),
            mobiles@.len() == store@.mobiles.len(),
            forall|k: int|
                0 <= k < mobiles@.len() ==> (#[trigger] mobiles@[k])@ == store@.mobiles[k],
            forall|k: int|
                0 <= k < j ==> has_key::<Location, LocationByEntity>(
                    store@.locations,
                    (#[trigger] store@.mobiles[k]).spawnable_entity_id,
                ),
        decreases mobiles.len() - j,
    {
        let id = mobiles[j].spawnable_entity_id;
        assert(MobileByEntity::key(store@.mobiles[j as int]) == id);
        assert(has_key::<Mobile, MobileByEntity>(store@.mobiles, id));
        if store.locations.lookup_by_unique::<LocationByEntity>(&id).is_none() {
            return false;
        }
        j += 1;
    }
    let players = store.players.iterate();
    let mut p: usize = 0;
    while p < players.len()
        invariant
            p <= players.len(),
            store.tables_wf(),
            players@.len() == store@.players.len(),
            forall|k: int|
                0 <= k < players@.len() ==> (#[trigger] players@[k])@ == store@.players[k],
            forall|k: int|
                0 <= k < p ==> has_key::<Location, LocationByEntity>(
                    store@.locations,
                    (#[trigger] store@.players[k]).spawnable_entity_id,
                ),
        decreases players.len() - p,
    {
        let id = players[p].spawnable_entity_id;
        assert(PlayerByEntity::key(store@.players[p as int]) == id);
        assert(has_key::<Player, PlayerByEntity>(store@.players, id));
        if store.locations.lookup_by_unique::<LocationByEntity>(&id).is_none() {
            return false;
        }
        p += 1;
    }
    proof {
        let s = store@;
        assert forall|id: u64|
            has_key::<Location, LocationByEntity>(s.locations, id) == has_key::<
                Mobile,
                MobileByEntity,
            >(s.mobiles, id) && has_key::<Location, LocationByEntity>(s.locations, id)
                == has_key::<Player, PlayerByEntity>(s.players, id) by {
            if has_key::<Location, LocationByEntity>(s.locations, id) {
                let k = position::<Location, LocationByEntity>(s.locations, id);
                assert(s.locations[k].spawnable_entity_id == id);
            }
            if has_key::<Mobile, MobileByEntity>(s.mobiles, id) {
                let k = position::<Mobile, MobileByEntity>(s.mobiles, id);
                assert(s.mobiles[k].spawnable_entity_id == id);
            }
            if has_key::<Player, PlayerByEntity>(s.players, id) {
                let k = position::<Player, PlayerByEntity>(s.players, id);
                assert(s.players[k].spawnable_entity_id == id);
            }
        }
    }
    true
}

/// Whether every exit leads to a room that exists and, where that room
/// lies in another zone, the zone of the exit's room names that zone.
fn exits_are_sound(store: &Store) -> (ok: bool)
    requires
        store.tables_wf(),
    ensures
        ok == (exits_lead_somewhere(store@.rooms) && crossings_recorded(
            store@.rooms,
            store@.zones,
        )),
{
    let rooms = store.rooms.iterate();
    let mut r: usize = 0;
    while r < rooms.len()
        invariant
            r <= rooms.len(),
            store.tables_wf(),
            rooms@.len() == store@.rooms.len(),
            forall|k: int| 0 <= k < rooms@.len() ==> (#[trigger] rooms@[k])@ == store@.rooms[k],
            forall|k: int, e: int|
                0 <= k < r && 0 <= e < store@.rooms[k].exits.len() ==> exit_is_sound(
                    store@.rooms,
                    store@.zones,
                    k,
                    e,
                ),
        decreases rooms.len() - r,
    {
        let room = &rooms[r];
        assert(room@ == store@.rooms[r as int]);
        let mut e: usize = 0;
        while e < room.exits.len()
            invariant
                e <= room.exits.len(),
                r < rooms.len(),
                rooms@.len() == store@.rooms.len(),
                store.tables_wf(),
                room@ == store@.rooms[r as int],
                forall|x: int|
                    0 <= x < e ==> exit_is_sound(store@.rooms, store@.zones, r as int, x),
            decreases room.exits.len() - e,
        {
            let exit = &room.exits[e];
            assert(exit@ == store@.rooms[r as int].exits[e as int]);
            let sound = match store.rooms.lookup_by_unique::<RoomById>(&exit.destination_room_id) {
                None => false,
                Some(to) => {
                    if to.zone_id == room.zone_id {
                        true
                    } else {
                        match store.zones.lookup_by_unique::<ZoneById>(&room.zone_id) {
                            None => false,
                            Some(zone) => names(&zone.connecting_zones, &to.zone_id),
                        }
                    }
                },
            };
            assert(sound == exit_is_sound(store@.rooms, store@.zones, r as int, e as int)) by {
                let to_id = exit@.destination_room_id;
                if has_key::<Room, RoomById>(store@.rooms, to_id) {
                    let to = store@.rooms[position::<Room, RoomById>(store@.rooms, to_id)];
                    lemma_adjacent_by_id(store@.zones, room@.zone_id, to.zone_id);
                }
            }
            if !sound {
                proof {
                    lemma_unsound_exit(store@.rooms, store@.zones, r as int, e as int);
                }
                return false;
            }
            e += 1;
        }
        r += 1;
    }
    proof {
        lemma_sound_exits(store@.rooms, store@.zones);
    }
    true
}

/// The exit `e` of the room at `r` leads to a room that exists and, where
/// that room lies in another zone, the zone of the room at `r` names that
/// zone.
pub open spec fn exit_is_sound(rooms: Seq<RoomView>, zones: Seq<ZoneView>, r: int, e: int) -> bool {
    let to_id = rooms[r].exits[e].destination_room_id;
    &&& has_key::<Room, RoomById>(rooms, to_id)
    &&& ({
        let to = rooms[position::<Room, RoomById>(rooms, to_id)];
        to.zone_id != rooms[r].zone_id ==> adjacent(zones, rooms[r].zone_id, to.zone_id)
    })
}

/// One exit that is not sound breaks what holds of all exits.
proof fn lemma_unsound_exit(rooms: Seq<RoomView>, zones: Seq<ZoneView>, r: int, e: int)
    requires
        unique::<Room>(rooms),
        0 <= r < rooms.len(),
        0 <= e < rooms[r].exits.len(),
        !exit_is_sound(rooms, zones, r, e),
    ensures
        !(exits_lead_somewhere(rooms) && crossings_recorded(rooms, zones)),
{
    let to_id = rooms[r].exits[e].destination_room_id;
    if has_key::<Room, RoomById>(rooms, to_id) {
        let d = position::<Room, RoomById>(rooms, to_id);
        assert(RoomById::key(rooms[d]) == to_id);
    }
}

/// Where every exit is sound, what holds of all exits holds.
proof fn lemma_sound_exits(rooms: Seq<RoomView>, zones: Seq<ZoneView>)
    requires
        unique::<Room>(rooms),
        forall|r: int, e: int|
            0 <= r < rooms.len() && 0 <= e < rooms[r].exits.len() ==> exit_is_sound(
                rooms,
                zones,
                r,
                e,
            ),
    ensures
        exits_lead_somewhere(rooms),
        crossings_recorded(rooms, zones),
{
    assert forall|r: int, e: int|
        0 <= r < rooms.len() && 0 <= e < rooms[r].exits.len() implies has_key::<Room, RoomById>(
        rooms,
        (#[trigger] rooms[r].exits[e]).destination_room_id,
    ) by {
        assert(exit_is_sound(rooms, zones, r, e));
    }
    assert forall|r: int, e: int, d: int|
        0 <= r < rooms.len() && 0 <= e < rooms[r].exits.len() && 0 <= d < rooms.len() && (
        #[trigger] rooms[d]).room_id == (#[trigger] rooms[r].exits[e]).destination_room_id
            && rooms[d].zone_id != rooms[r].zone_id implies adjacent(
        zones,
        rooms[r].zone_id,
        rooms[d].zone_id,
    ) by {
        assert(exit_is_sound(rooms, zones, r, e));
        lemma_found_at::<Room, RoomById>(rooms, rooms[r].exits[e].destination_room_id, d);
    }
}

/// Whether no text stands twice among `texts`.
fn all_differ(texts: &Vec<String>) -> (ok: bool)
    ensures
        ok == text_views(texts@).no_duplicates(),
{
    let ghost views = text_views(texts@);
    let mut i: usize = 0;
    while i < texts.len()
        invariant
            i <= texts.len(),
            views == text_views(texts@),
            forall|a: int, b: int| 0 <= a < i && a < b < views.len() ==> views[a] != views[b],
        decreases texts.len() - i,
    {
        let mut j: usize = i + 1;
        while j < texts.len()
            invariant
                i < j <= texts.len(),
                views == text_views(texts@),
                forall|b: int| i < b < j ==> views[i as int] != views[b],
            decreases texts.len() - j,
        {
            if texts[i] == texts[j] {
                assert(views[i as int] == views[j as int]);
                return false;
            }
            j += 1;
        }
        i += 1;
    }
    assert forall|a: int, b: int|
        0 <= a < views.len() && 0 <= b < views.len() && a != b implies views[a] != views[b] by {
        if a < b {
            assert(views[a] != views[b]);
        } else {
            assert(views[b] != views[a]);
        }
    }
    true
}

/// Whether no zone names a zone twice among its connecting zones.
fn zones_name_once(store: &Store) -> (ok: bool)
    ensures
        ok == named_once(store@.zones),
{
    let zones = store.zones.iterate();
    let mut z: usize = 0;
    while z < zones.len()
        invariant
            z <= zones.len(),
            zones@.len() == store@.zones.len(),
            forall|k: int| 0 <= k < zones@.len() ==> (#[trigger] zones@[k])@ == store@.zones[k],
            forall|k: int|
                0 <= k < z ==> (#[trigger] store@.zones[k]).connecting_zones.no_duplicates(),
        decreases zones.len() - z,
    {
        assert(zones@[z as int]@ == store@.zones[z as int]);
        if !all_differ(&zones[z].connecting_zones) {
            return false;
        }
        z += 1;
    }
    true
}

impl Store {
    /// Whether the tables agree. The reducers keep a store in agreement;
    /// rows that were put into the tables by other means may not agree,
    /// and no reducer may run on them before they do.
    pub fn is_consistent(&self) -> (ok: bool)
        requires
            self.tables_wf(),
        ensures
            ok == consistent(self@),
            ok == self.wf(),
    {
        entities_are_whole(self) && exits_are_sound(self) && zones_name_once(self)
    }
}

} // verus!
