//! The reducers that seed the world and that players call: to come into
//! being, to speak, and to enter and leave the world.

use crate::context::ReducerContext;
use crate::errors::{EntityKind, ReducerError, ReducerErrorView};
use crate::graph::{create_room, create_world, create_zone};
use crate::store::{
    find, has_key, lemma_found_at, lemma_has_key_pushed, position, Column, Row, UNASSIGNED,
};
use crate::tables::{
    replicate_optional_text, Globals, GlobalsById, Location, LocationByEntity, LocationView,
    Mobile, MobileByEntity, MobileView, Player, PlayerByEntity, PlayerByIdentity, PlayerView,
    Room, RoomById, RoomChat, RoomChatView, RoomView, World, WorldById, WorldView, Zone,
    ZoneById, ZoneView,
};
use crate::world::{
    allocation, entity_counter, next_spawnable_entity_id, relocate, relocated, Store, StoreView,
    GLOBALS_ID,
};
use vstd::prelude::*;

verus! {

/// The id of the world that `initialize` seeds.
pub const START_WORLD_ID: &'static str = "base";

/// The name of that world.
pub const START_WORLD_NAME: &'static str = "Base World";

/// The description of that world.
pub const START_WORLD_DESCRIPTION: &'static str = "The world in which every player begins.";

/// The id of the zone that `initialize` seeds.
pub const START_ZONE_ID: &'static str = "start";

/// The name of that zone.
pub const START_ZONE_NAME: &'static str = "Clockwork Labs";

/// The description of that zone.
pub const START_ZONE_DESCRIPTION: &'static str = "The offices of a Silicon Valley startup.";

/// The id of the room that `initialize` seeds, in which new players stand.
pub const START_ROOM_ID: &'static str = "start";

/// The name of that room.
pub const START_ROOM_NAME: &'static str = "Clockwork Labs Lobby";

/// The description of that room.
pub const START_ROOM_DESCRIPTION: &'static str =
    "    The main lobby of this Silicon Valley startup is an enchanting amalgamation of futuristic eccentricity and vibrant energy. As one steps into the space, they are greeted by a symphony of neon lights dancing across the walls, juxtaposed with sleek, minimalist furniture adorned with plush, oversized cushions in vivid hues.\n    The atmosphere buzzes with the echoes of passionate conversations, the whirring of espresso machines, and the occasional ping-pong ball ricocheting in the air, epitomizing the dynamic spirit of innovation that permeates the company's culture.";

/// The store once what is missing of the row of counters, the first world,
/// its zone and the starting room is there.
pub open spec fn seeded(s: StoreView) -> StoreView {
    StoreView {
        globals: if has_key::<Globals, GlobalsById>(s.globals, GLOBALS_ID) {
            s.globals
        } else {
            s.globals.push(Globals { id: GLOBALS_ID, spawnable_entity_id_counter: 0 })
        },
        worlds: if has_key::<World, WorldById>(s.worlds, START_WORLD_ID@) {
            s.worlds
        } else {
            s.worlds.push(
                WorldView {
                    world_id: START_WORLD_ID@,
                    name: START_WORLD_NAME@,
                    description: START_WORLD_DESCRIPTION@,
                },
            )
        },
        zones: if has_key::<Zone, ZoneById>(s.zones, START_ZONE_ID@) {
            s.zones
        } else {
            s.zones.push(
                ZoneView {
                    zone_id: START_ZONE_ID@,
                    world_id: START_WORLD_ID@,
                    name: START_ZONE_NAME@,
                    description: START_ZONE_DESCRIPTION@,
                    connecting_zones: Seq::empty(),
                },
            )
        },
        rooms: if has_key::<Room, RoomById>(s.rooms, START_ROOM_ID@) {
            s.rooms
        } else {
            s.rooms.push(
                RoomView {
                    room_id: START_ROOM_ID@,
                    zone_id: START_ZONE_ID@,
                    name: START_ROOM_NAME@,
                    description: START_ROOM_DESCRIPTION@,
                    exits: Seq::empty(),
                },
            )
        },
        ..s
    }
}

/// Seeds the world: the row of counters, the first world, its zone and the
/// starting room. What is there already stays as it is, so a second run
/// changes nothing.
pub fn initialize(store: &mut Store)
    requires
        old(store).wf(),
    ensures
        final(store).wf(),
        final(store)@ == seeded(old(store)@),
{
    let key = GLOBALS_ID;
    if store.globals.lookup_by_unique::<GlobalsById>(&key).is_none() {
        let row = Globals { id: GLOBALS_ID, spawnable_entity_id_counter: 0 };
        proof {
            let rows = store.globals@;
            assert forall|i: int| 0 <= i < rows.len() implies !Globals::collides(
                #[trigger] rows[i],
                row,
            ) by {
                assert(GlobalsById::key(rows[i]) != GLOBALS_ID);
            }
            lemma_found_at::<Globals, GlobalsById>(rows.push(row), GLOBALS_ID, rows.len() as int);
        }
        let stored = store.globals.insert(row);
        assert(stored is Ok);
    }
    let _ = create_world(
        store,
        START_WORLD_ID.to_owned(),
        START_WORLD_NAME.to_owned(),
        START_WORLD_DESCRIPTION.to_owned(),
    );
    let _ = create_zone(
        store,
        START_ZONE_ID.to_owned(),
        START_WORLD_ID.to_owned(),
        START_ZONE_NAME.to_owned(),
        START_ZONE_DESCRIPTION.to_owned(),
    );
    let _ = create_room(
        store,
        START_ROOM_ID.to_owned(),
        START_ZONE_ID.to_owned(),
        START_ROOM_NAME.to_owned(),
        START_ROOM_DESCRIPTION.to_owned(),
    );
}

/// What `create_player` makes of the store.
pub open spec fn create_player_outcome(
    s: StoreView,
    sender: Seq<u8>,
    name: Seq<char>,
    description: Seq<char>,
) -> Result<StoreView, ReducerErrorView> {
    if has_key::<Player, PlayerByIdentity>(s.players, sender) {
        Err(ReducerErrorView::AlreadyExists(EntityKind::Player))
    } else {
        match allocation(s) {
            Err(error) => Err(error),
            Ok((t, id)) => Ok(
                StoreView {
                    locations: t.locations.push(
                        LocationView {
                            spawnable_entity_id: id,
                            room_id: Some(START_ROOM_ID@),
                            last_room_id: None,
                        },
                    ),
                    mobiles: t.mobiles.push(
                        MobileView { spawnable_entity_id: id, name, description },
                    ),
                    players: t.players.push(
                        PlayerView { spawnable_entity_id: id, identity: sender },
                    ),
                    location_sequence: if id > t.location_sequence {
                        id
                    } else {
                        t.location_sequence
                    },
                    ..t
                },
            ),
        }
    }
}

/// Makes the caller's player: a location in the starting room, a mobile
/// and a player, all three under one new entity id. A caller who has a
/// player gets no second one.
pub fn create_player(
    store: &mut Store,
    ctx: &ReducerContext,
    name: String,
    description: String,
) -> (outcome: Result<(), ReducerError>)
    requires
        old(store).wf(),
    ensures
        final(store).wf(),
        match outcome {
            Ok(()) => create_player_outcome(old(store)@, ctx.sender@, name@, description@) == Ok::<
                StoreView,
                ReducerErrorView,
            >(final(store)@),
            Err(error) => {
                &&& create_player_outcome(old(store)@, ctx.sender@, name@, description@) == Err::<
                    StoreView,
                    ReducerErrorView,
                >(error@)
                &&& final(store)@ == old(store)@
            },
        },
{
    if store.players.lookup_by_unique::<PlayerByIdentity>(&ctx.sender).is_some() {
        return Err(ReducerError::AlreadyExists(EntityKind::Player));
    }
    let id = match next_spawnable_entity_id(store) {
        Ok(id) => id,
        Err(error) => {
            return Err(error);
        },
    };
    let location = Location {
        spawnable_entity_id: id,
        room_id: Some(START_ROOM_ID.to_owned()),
        last_room_id: None,
    };
    let mobile = Mobile { spawnable_entity_id: id, name, description };
    let player = Player { spawnable_entity_id: id, identity: ctx.sender };
    proof {
        let s = old(store)@;
        assert(!has_key::<Location, LocationByEntity>(s.locations, id)) by {
            if has_key::<Location, LocationByEntity>(s.locations, id) {
                let i = position::<Location, LocationByEntity>(s.locations, id);
                assert(s.locations[i].spawnable_entity_id <= entity_counter(s.globals));
            }
        }
        assert forall|i: int| 0 <= i < s.locations.len() implies !Location::collides(
            #[trigger] s.locations[i],
            location@,
        ) by {
            assert(LocationByEntity::key(s.locations[i]) != id);
        }
        assert forall|i: int| 0 <= i < s.mobiles.len() implies !Mobile::collides(
            #[trigger] s.mobiles[i],
            mobile@,
        ) by {
            assert(MobileByEntity::key(s.mobiles[i]) != id);
        }
        assert forall|i: int| 0 <= i < s.players.len() implies !Player::collides(
            #[trigger] s.players[i],
            player@,
        ) by {
            assert(PlayerByIdentity::key(s.players[i]) != ctx.sender@);
            assert(PlayerByEntity::key(s.players[i]) != id);
        }
        assert forall|other: u64|
            has_key::<Location, LocationByEntity>(s.locations.push(location@), other) == has_key::<
                Mobile,
                MobileByEntity,
            >(s.mobiles.push(mobile@), other) && has_key::<Location, LocationByEntity>(
                s.locations.push(location@),
                other,
            ) == has_key::<Player, PlayerByEntity>(s.players.push(player@), other) by {
            lemma_has_key_pushed::<Location, LocationByEntity>(s.locations, location@, other);
            lemma_has_key_pushed::<Mobile, MobileByEntity>(s.mobiles, mobile@, other);
            lemma_has_key_pushed::<Player, PlayerByEntity>(s.players, player@, other);
        }
    }
    let placed = store.locations.insert(location);
    assert(placed is Ok);
    let embodied = store.mobiles.insert(mobile);
    assert(embodied is Ok);
    let played = store.players.insert(player);
    assert(played is Ok);
    Ok(())
}

/// What `say` makes of the store at the time `timestamp`.
pub open spec fn say_outcome(
    s: StoreView,
    source_spawnable_entity_id: u64,
    chat_text: Seq<char>,
    timestamp: u64,
) -> Result<StoreView, ReducerErrorView> {
    match find::<Location, LocationByEntity>(s.locations, source_spawnable_entity_id) {
        None => Err(ReducerErrorView::NoMobile),
        Some(location) => match location.room_id {
            None => Err(ReducerErrorView::NoLocation),
            Some(room_id) => if s.room_chat_sequence == u64::MAX {
                Err(ReducerErrorView::ChatLogFull)
            } else {
                let chat_entity_id = (s.room_chat_sequence + 1) as u64;
                Ok(
                    StoreView {
                        room_chats: s.room_chats.push(
                            RoomChatView {
                                chat_entity_id,
                                room_id,
                                source_spawnable_entity_id,
                                chat_text,
                                timestamp,
                            },
                        ),
                        room_chat_sequence: chat_entity_id,
                        ..s
                    },
                )
            },
        },
    }
}

/// Appends what an entity says to the chat log of the room that it is in,
/// under the next chat id and with the time of the call.
pub fn say(
    store: &mut Store,
    ctx: &ReducerContext,
    source_spawnable_entity_id: u64,
    chat_text: String,
) -> (outcome: Result<(), ReducerError>)
    requires
        old(store).wf(),
    ensures
        final(store).wf(),
        match outcome {
            Ok(()) => say_outcome(
                old(store)@,
                source_spawnable_entity_id,
                chat_text@,
                ctx.timestamp,
            ) == Ok::<StoreView, ReducerErrorView>(final(store)@),
            Err(error) => {
                &&& say_outcome(old(store)@, source_spawnable_entity_id, chat_text@, ctx.timestamp)
                    == Err::<StoreView, ReducerErrorView>(error@)
                &&& final(store)@ == old(store)@
            },
        },
{
    let room_id = match store.locations.lookup_by_unique::<LocationByEntity>(
        &source_spawnable_entity_id,
    ) {
        None => {
            return Err(ReducerError::NoMobile);
        },
        Some(location) => match &location.room_id {
            None => {
                return Err(ReducerError::NoLocation);
            },
            Some(room_id) => room_id.clone(),
        },
    };
    let chat = RoomChat {
        chat_entity_id: UNASSIGNED,
        room_id,
        source_spawnable_entity_id,
        chat_text,
        timestamp: ctx.timestamp,
    };
    proof {
        let rows = store.room_chats@;
        let next = RoomChat::with_auto_value(chat@, (store.room_chats.sequence() + 1) as u64);
        assert forall|i: int| 0 <= i < rows.len() implies !RoomChat::collides(
            #[trigger] rows[i],
            next,
        ) || store.room_chats.sequence() == u64::MAX by {}
    }
    match store.room_chats.insert(chat) {
        Ok(_) => Ok(()),
        Err(_) => Err(ReducerError::ChatLogFull),
    }
}

/// What `sign_in` makes of the store.
pub open spec fn sign_in_outcome(s: StoreView, player_spawnable_entity_id: u64) -> Result<
    StoreView,
    ReducerErrorView,
> {
    match find::<Location, LocationByEntity>(s.locations, player_spawnable_entity_id) {
        None => Err(ReducerErrorView::NoMobile),
        Some(location) => Ok(
            StoreView {
                locations: relocated(
                    s.locations,
                    player_spawnable_entity_id,
                    location.last_room_id,
                    None,
                ),
                ..s
            },
        ),
    }
}

/// Brings a player back into the world, into the room that it was last
/// in; it has no last room from then on.
pub fn sign_in(store: &mut Store, player_spawnable_entity_id: u64) -> (outcome: Result<
    (),
    ReducerError,
>)
    requires
        old(store).wf(),
    ensures
        final(store).wf(),
        match outcome {
            Ok(()) => sign_in_outcome(old(store)@, player_spawnable_entity_id) == Ok::<
                StoreView,
                ReducerErrorView,
            >(final(store)@),
            Err(error) => {
                &&& sign_in_outcome(old(store)@, player_spawnable_entity_id) == Err::<
                    StoreView,
                    ReducerErrorView,
                >(error@)
                &&& final(store)@ == old(store)@
            },
        },
{
    let room_id = match store.locations.lookup_by_unique::<LocationByEntity>(
        &player_spawnable_entity_id,
    ) {
        None => {
            return Err(ReducerError::NoMobile);
        },
        Some(location) => replicate_optional_text(&location.last_room_id),
    };
    relocate(store, player_spawnable_entity_id, room_id, None);
    Ok(())
}

/// What `sign_out` makes of the store.
pub open spec fn sign_out_outcome(s: StoreView, player_spawnable_entity_id: u64) -> Result<
    StoreView,
    ReducerErrorView,
> {
    match find::<Location, LocationByEntity>(s.locations, player_spawnable_entity_id) {
        None => Err(ReducerErrorView::NoMobile),
        Some(location) => Ok(
            StoreView {
                locations: relocated(
                    s.locations,
                    player_spawnable_entity_id,
                    None,
                    location.room_id,
                ),
                ..s
            },
        ),
    }
}

/// Takes a player out of the world: it is in no room from then on, and the
/// room that it was in is its last room.
pub fn sign_out(store: &mut Store, player_spawnable_entity_id: u64) -> (outcome: Result<
    (),
    ReducerError,
>)
    requires
        old(store).wf(),
    ensures
        final(store).wf(),
        match outcome {
            Ok(()) => sign_out_outcome(old(store)@, player_spawnable_entity_id) == Ok::<
                StoreView,
                ReducerErrorView,
            >(final(store)@),
            Err(error) => {
                &&& sign_out_outcome(old(store)@, player_spawnable_entity_id) == Err::<
                    StoreView,
                    ReducerErrorView,
                >(error@)
                &&& final(store)@ == old(store)@
            },
        },
{
    let last_room_id = match store.locations.lookup_by_unique::<LocationByEntity>(
        &player_spawnable_entity_id,
    ) {
        None => {
            return Err(ReducerError::NoMobile);
        },
        Some(location) => replicate_optional_text(&location.room_id),
    };
    relocate(store, player_spawnable_entity_id, None, last_room_id);
    Ok(())
}

} // verus!
