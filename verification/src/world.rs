//! The world's tables as one store, what must hold of them together, and
//! the allocator of entity ids.

use crate::errors::{ReducerError, ReducerErrorView};
use crate::store::{
    bounded, find, has_key, lemma_found_at, lemma_has_key_updated, position, unique, Column, Row,
    Table,
};
use crate::tables::{
    optional_text, Globals, GlobalsById, Location, LocationByEntity, LocationView, Mobile,
    MobileByEntity, MobileView, Player, PlayerByEntity, PlayerView, Room, RoomById, RoomChat,
    RoomChatView, RoomView, World, WorldView, Zone, ZoneView,
};
use vstd::prelude::*;

verus! {

/// The id under which the row of counters is kept.
pub const GLOBALS_ID: u32 = 0;

/// All tables of the world. A reducer is handed the store for the time of
/// its run, and either leaves all its changes there or none.
pub struct Store {
    pub globals: Table<Globals>,
    pub worlds: Table<World>,
    pub zones: Table<Zone>,
    pub rooms: Table<Room>,
    pub locations: Table<Location>,
    pub mobiles: Table<Mobile>,
    pub players: Table<Player>,
    pub room_chats: Table<RoomChat>,
}

/// The rows of every table, and the last ids that the tables with an
/// autoincrement column have assigned.
pub struct StoreView {
    pub globals: Seq<Globals>,
    pub worlds: Seq<WorldView>,
    pub zones: Seq<ZoneView>,
    pub rooms: Seq<RoomView>,
    pub locations: Seq<LocationView>,
    pub mobiles: Seq<MobileView>,
    pub players: Seq<PlayerView>,
    pub room_chats: Seq<RoomChatView>,
    pub location_sequence: u64,
    pub room_chat_sequence: u64,
}

impl View for Store {
    type V = StoreView;

    open spec fn view(&self) -> StoreView {
        StoreView {
            globals: self.globals@,
            worlds: self.worlds@,
            zones: self.zones@,
            rooms: self.rooms@,
            locations: self.locations@,
            mobiles: self.mobiles@,
            players: self.players@,
            room_chats: self.room_chats@,
            location_sequence: self.locations.sequence(),
            room_chat_sequence: self.room_chats.sequence(),
        }
    }
}

/// The last entity id that was given out; 0 before the world is
/// initialized.
pub open spec fn entity_counter(globals: Seq<Globals>) -> u64 {
    match find::<Globals, GlobalsById>(globals, GLOBALS_ID) {
        Some(row) => row.spawnable_entity_id_counter,
        None => 0,
    }
}

/// An entity has a location, a mobile and a player, or none of them, and
/// every entity id was given out by the counter.
pub open spec fn entities_whole(s: StoreView) -> bool {
    &&& forall|id: u64|
        #![trigger has_key::<Location, LocationByEntity>(s.locations, id)]
        #![trigger has_key::<Mobile, MobileByEntity>(s.mobiles, id)]
        has_key::<Location, LocationByEntity>(s.locations, id) == has_key::<
            Mobile,
            MobileByEntity,
        >(s.mobiles, id)
    &&& forall|id: u64|
        #![trigger has_key::<Location, LocationByEntity>(s.locations, id)]
        #![trigger has_key::<Player, PlayerByEntity>(s.players, id)]
        has_key::<Location, LocationByEntity>(s.locations, id) == has_key::<
            Player,
            PlayerByEntity,
        >(s.players, id)
    &&& forall|i: int|
        0 <= i < s.locations.len() ==> (#[trigger] s.locations[i]).spawnable_entity_id
            <= entity_counter(s.globals)
}

/// Every exit leads to a room that exists.
pub open spec fn exits_lead_somewhere(rooms: Seq<RoomView>) -> bool {
    forall|r: int, e: int|
        0 <= r < rooms.len() && 0 <= e < rooms[r].exits.len() ==> has_key::<Room, RoomById>(
            rooms,
            (#[trigger] rooms[r].exits[e]).destination_room_id,
        )
}

/// The zone `from` exists and names the zone `to` among its connecting
/// zones.
pub open spec fn adjacent(zones: Seq<ZoneView>, from: Seq<char>, to: Seq<char>) -> bool {
    exists|z: int|
        0 <= z < zones.len() && (#[trigger] zones[z]).zone_id == from
            && zones[z].connecting_zones.contains(to)
}

/// Wherever an exit leads from a room of one zone into a room of another,
/// the first zone names the second among its connecting zones.
pub open spec fn crossings_recorded(rooms: Seq<RoomView>, zones: Seq<ZoneView>) -> bool {
    forall|r: int, e: int, d: int|
        0 <= r < rooms.len() && 0 <= e < rooms[r].exits.len() && 0 <= d < rooms.len() && (
        #[trigger] rooms[d]).room_id == (#[trigger] rooms[r].exits[e]).destination_room_id
            && rooms[d].zone_id != rooms[r].zone_id ==> adjacent(
            zones,
            rooms[r].zone_id,
            rooms[d].zone_id,
        )
}

/// No zone names a zone twice among its connecting zones.
pub open spec fn named_once(zones: Seq<ZoneView>) -> bool {
    forall|z: int| 0 <= z < zones.len() ==> (#[trigger] zones[z]).connecting_zones.no_duplicates()
}

/// What holds of the tables together between any two reducers.
pub open spec fn consistent(s: StoreView) -> bool {
    &&& entities_whole(s)
    &&& exits_lead_somewhere(s.rooms)
    &&& crossings_recorded(s.rooms, s.zones)
    &&& named_once(s.zones)
}

/// What holds of the rows of a store between any two reducers: each
/// table obeys its constraints, and the tables agree.
pub open spec fn valid(s: StoreView) -> bool {
    &&& unique::<Globals>(s.globals)
    &&& unique::<World>(s.worlds)
    &&& unique::<Zone>(s.zones)
    &&& unique::<Room>(s.rooms)
    &&& unique::<Location>(s.locations)
    &&& unique::<Mobile>(s.mobiles)
    &&& unique::<Player>(s.players)
    &&& unique::<RoomChat>(s.room_chats)
    &&& bounded::<Location>(s.locations, s.location_sequence)
    &&& bounded::<RoomChat>(s.room_chats, s.room_chat_sequence)
    &&& consistent(s)
}

/// What `next_spawnable_entity_id` makes of the store, and the id that it
/// returns.
pub open spec fn allocation(s: StoreView) -> Result<(StoreView, u64), ReducerErrorView> {
    match find::<Globals, GlobalsById>(s.globals, GLOBALS_ID) {
        None => Err(ReducerErrorView::NotInitialized),
        Some(row) => if row.spawnable_entity_id_counter == u64::MAX {
            Err(ReducerErrorView::IdentifiersExhausted)
        } else {
            let id = (row.spawnable_entity_id_counter + 1) as u64;
            Ok(
                (
                    StoreView {
                        globals: s.globals.update(
                            position::<Globals, GlobalsById>(s.globals, GLOBALS_ID),
                            Globals { id: GLOBALS_ID, spawnable_entity_id_counter: id },
                        ),
                        ..s
                    },
                    id,
                ),
            )
        },
    }
}

impl Store {
    /// Every table obeys its constraints.
    pub open spec fn tables_wf(&self) -> bool {
        &&& self.globals.wf()
        &&& self.worlds.wf()
        &&& self.zones.wf()
        &&& self.rooms.wf()
        &&& self.locations.wf()
        &&& self.mobiles.wf()
        &&& self.players.wf()
        &&& self.room_chats.wf()
    }

    /// Every table obeys its constraints, and the tables agree: the rows
    /// are valid.
    pub open spec fn wf(&self) -> bool {
        &&& self.tables_wf()
        &&& consistent(self@)
    }

    /// The rows of a store whose tables are all empty.
    pub open spec fn new_view() -> StoreView {
        StoreView {
            globals: Seq::empty(),
            worlds: Seq::empty(),
            zones: Seq::empty(),
            rooms: Seq::empty(),
            locations: Seq::empty(),
            mobiles: Seq::empty(),
            players: Seq::empty(),
            room_chats: Seq::empty(),
            location_sequence: 0,
            room_chat_sequence: 0,
        }
    }

    /// A store whose tables are all empty.
    pub fn new() -> (store: Self)
        ensures
            store.wf(),
            store@ == Self::new_view(),
    {
        Store {
            globals: Table::new(),
            worlds: Table::new(),
            zones: Table::new(),
            rooms: Table::new(),
            locations: Table::new(),
            mobiles: Table::new(),
            players: Table::new(),
            room_chats: Table::new(),
        }
    }
}

/// Gives out the next entity id: one more than the counter in the row of
/// counters, which is written back with it. Locations, mobiles and players
/// share the ids of this one counter.
pub fn next_spawnable_entity_id(store: &mut Store) -> (outcome: Result<u64, ReducerError>)
    requires
        old(store).wf(),
    ensures
        final(store).wf(),
        match outcome {
            Ok(id) => {
                &&& allocation(old(store)@) == Ok::<(StoreView, u64), ReducerErrorView>(
                    (final(store)@, id),
                )
                &&& entity_counter(final(store)@.globals) == id
            },
            Err(error) => {
                &&& allocation(old(store)@) == Err::<(StoreView, u64), ReducerErrorView>(error@)
                &&& final(store)@ == old(store)@
            },
        },
{
    let key = GLOBALS_ID;
    let counter = match store.globals.lookup_by_unique::<GlobalsById>(&key) {
        Some(row) => row.spawnable_entity_id_counter,
        None => {
            return Err(ReducerError::NotInitialized);
        },
    };
    if counter == u64::MAX {
        return Err(ReducerError::IdentifiersExhausted);
    }
    let id = counter + 1;
    let row = Globals { id: GLOBALS_ID, spawnable_entity_id_counter: id };
    let ghost at = position::<Globals, GlobalsById>(store.globals@, GLOBALS_ID);
    proof {
        let rows = store.globals@;
        assert forall|j: int| 0 <= j < rows.len() && j != at implies !Globals::collides(
            #[trigger] rows[j],
            row,
        ) by {}
    }
    let written = store.globals.update_by_key::<GlobalsById>(&key, row);
    assert(written is Ok);
    proof {
        lemma_found_at::<Globals, GlobalsById>(store.globals@, GLOBALS_ID, at);
    }
    Ok(id)
}

/// A room without exits, under an id that no room has, keeps what holds of
/// exits.
pub proof fn lemma_room_added(rooms: Seq<RoomView>, zones: Seq<ZoneView>, room: RoomView)
    requires
        exits_lead_somewhere(rooms),
        crossings_recorded(rooms, zones),
        room.exits.len() == 0,
        !has_key::<Room, RoomById>(rooms, room.room_id),
    ensures
        exits_lead_somewhere(rooms.push(room)),
        crossings_recorded(rooms.push(room), zones),
{
    let after = rooms.push(room);
    assert forall|r: int, e: int|
        0 <= r < after.len() && 0 <= e < after[r].exits.len() implies has_key::<Room, RoomById>(
        after,
        (#[trigger] after[r].exits[e]).destination_room_id,
    ) by {
        assert(after[r] == rooms[r]);
        let to = rooms[r].exits[e].destination_room_id;
        let at = position::<Room, RoomById>(rooms, to);
        assert(RoomById::key(after[at]) == to);
    }
    assert forall|r: int, e: int, d: int|
        0 <= r < after.len() && 0 <= e < after[r].exits.len() && 0 <= d < after.len() && (
        #[trigger] after[d]).room_id == (#[trigger] after[r].exits[e]).destination_room_id
            && after[d].zone_id != after[r].zone_id implies adjacent(
        zones,
        after[r].zone_id,
        after[d].zone_id,
    ) by {
        assert(after[r] == rooms[r]);
        let to = rooms[r].exits[e].destination_room_id;
        let at = position::<Room, RoomById>(rooms, to);
        assert(RoomById::key(rooms[at]) == to);
        assert(d < rooms.len());
        assert(after[d] == rooms[d]);
    }
}

/// A further zone that names no zone twice keeps what holds of zones.
pub proof fn lemma_zone_added(rooms: Seq<RoomView>, zones: Seq<ZoneView>, zone: ZoneView)
    requires
        crossings_recorded(rooms, zones),
        named_once(zones),
        zone.connecting_zones.no_duplicates(),
    ensures
        crossings_recorded(rooms, zones.push(zone)),
        named_once(zones.push(zone)),
{
    let after = zones.push(zone);
    assert forall|z: int| 0 <= z < after.len() implies (
    #[trigger] after[z]).connecting_zones.no_duplicates() by {
        if z < zones.len() {
            assert(after[z] == zones[z]);
        }
    }
    assert forall|r: int, e: int, d: int|
        0 <= r < rooms.len() && 0 <= e < rooms[r].exits.len() && 0 <= d < rooms.len() && (
        #[trigger] rooms[d]).room_id == (#[trigger] rooms[r].exits[e]).destination_room_id
            && rooms[d].zone_id != rooms[r].zone_id implies adjacent(
        after,
        rooms[r].zone_id,
        rooms[d].zone_id,
    ) by {
        let z = choose|z: int|
            0 <= z < zones.len() && (#[trigger] zones[z]).zone_id == rooms[r].zone_id
                && zones[z].connecting_zones.contains(rooms[d].zone_id);
        assert(after[z] == zones[z]);
    }
}

/// The locations once the entity `id` is in `room_id` and was last in
/// `last_room_id`.
pub open spec fn relocated(
    locations: Seq<LocationView>,
    id: u64,
    room_id: Option<Seq<char>>,
    last_room_id: Option<Seq<char>>,
) -> Seq<LocationView> {
    locations.update(
        position::<Location, LocationByEntity>(locations, id),
        LocationView { spawnable_entity_id: id, room_id, last_room_id },
    )
}

/// Writes where the entity `id` is and was.
pub(crate) fn relocate(
    store: &mut Store,
    id: u64,
    room_id: Option<String>,
    last_room_id: Option<String>,
)
    requires
        old(store).wf(),
        has_key::<Location, LocationByEntity>(old(store)@.locations, id),
    ensures
        final(store).wf(),
        final(store)@ == (StoreView {
            locations: relocated(
                old(store)@.locations,
                id,
                optional_text(room_id),
                optional_text(last_room_id),
            ),
            ..old(store)@
        }),
{
    let row = Location { spawnable_entity_id: id, room_id, last_room_id };
    let ghost at = position::<Location, LocationByEntity>(store.locations@, id);
    proof {
        let rows = store.locations@;
        assert(LocationByEntity::key(rows[at]) == id);
        assert forall|j: int| 0 <= j < rows.len() && j != at implies !Location::collides(
            #[trigger] rows[j],
            row@,
        ) by {}
        assert forall|other: u64|
            has_key::<Location, LocationByEntity>(rows.update(at, row@), other) == has_key::<
                Location,
                LocationByEntity,
            >(rows, other) by {
            lemma_has_key_updated::<Location, LocationByEntity>(rows, at, row@, other);
        }
    }
    let written = store.locations.update_by_key::<LocationByEntity>(&id, row);
    assert(written is Ok);
}

} // verus!
