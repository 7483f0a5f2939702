use text_adventure::context::ReducerContext;
use text_adventure::engine::{Engine, ReducerCall};
use text_adventure::errors::ReducerError;
use text_adventure::graph::{create_connection, create_room, create_zone};
use text_adventure::identity::Identity;
use text_adventure::players::{create_player, initialize, say};
use text_adventure::scheduler::{Deferred, DeferredCall};
use text_adventure::tables::{
    Exit, Globals, Location, LocationByEntity, Mobile, Player, Room, RoomChat, Zone,
};
use text_adventure::world::Store;

fn owned(s: &str) -> String {
    s.to_string()
}

fn somebody(byte: u8) -> ReducerContext {
    ReducerContext { sender: Identity::from_byte_array([byte; 32]), timestamp: 0 }
}

fn bare_room(id: &str, zone: &str, exits: Vec<Exit>) -> Room {
    Room { room_id: owned(id), zone_id: owned(zone), name: owned(id), description: owned(""), exits }
}

fn way(direction: &str, to: &str) -> Exit {
    Exit { direction: owned(direction), examine: owned(""), destination_room_id: owned(to) }
}

fn bare_zone(id: &str, connecting: Vec<&str>) -> Zone {
    Zone {
        zone_id: owned(id),
        world_id: owned("w"),
        name: owned(id),
        description: owned(""),
        connecting_zones: connecting.into_iter().map(owned).collect(),
    }
}

fn entity(store: &mut Store, id: u64, byte: u8) {
    store
        .locations
        .insert(Location { spawnable_entity_id: id, room_id: Some(owned("start")), last_room_id: None })
        .unwrap();
    store
        .mobiles
        .insert(Mobile { spawnable_entity_id: id, name: owned("m"), description: owned("") })
        .unwrap();
    store
        .players
        .insert(Player { spawnable_entity_id: id, identity: Identity::from_byte_array([byte; 32]) })
        .unwrap();
}

#[test]
fn an_empty_store_is_consistent() {
    assert!(Store::new().is_consistent());
}

#[test]
fn what_the_reducers_make_is_consistent() {
    let mut store = Store::new();
    initialize(&mut store);
    create_player(&mut store, &somebody(1), owned("Ann"), owned("")).unwrap();
    create_player(&mut store, &somebody(2), owned("Bob"), owned("")).unwrap();
    create_zone(&mut store, owned("z"), owned("w"), owned("Z"), owned("")).unwrap();
    create_room(&mut store, owned("r"), owned("z"), owned("R"), owned("")).unwrap();
    create_connection(&mut store, owned("start"), owned("r"), owned("n"), owned("s"), owned(""), owned(""))
        .unwrap();
    create_connection(&mut store, owned("r"), owned("r"), owned("in"), owned(""), owned(""), owned(""))
        .unwrap();
    assert!(store.is_consistent());
}

#[test]
fn rows_loaded_in_any_order_are_consistent() {
    let mut store = Store::new();
    store.globals.insert(Globals { id: 0, spawnable_entity_id_counter: 2 }).unwrap();
    store
        .locations
        .insert(Location { spawnable_entity_id: 2, room_id: None, last_room_id: None })
        .unwrap();
    store
        .locations
        .insert(Location { spawnable_entity_id: 1, room_id: None, last_room_id: None })
        .unwrap();
    store
        .mobiles
        .insert(Mobile { spawnable_entity_id: 1, name: owned("a"), description: owned("") })
        .unwrap();
    store
        .mobiles
        .insert(Mobile { spawnable_entity_id: 2, name: owned("b"), description: owned("") })
        .unwrap();
    store
        .players
        .insert(Player { spawnable_entity_id: 2, identity: Identity::from_byte_array([2; 32]) })
        .unwrap();
    store
        .players
        .insert(Player { spawnable_entity_id: 1, identity: Identity::from_byte_array([1; 32]) })
        .unwrap();
    assert!(store.is_consistent());
}

#[test]
fn an_entity_with_a_row_missing_is_not_consistent() {
    let mut no_mobile = Store::new();
    no_mobile.globals.insert(Globals { id: 0, spawnable_entity_id_counter: 1 }).unwrap();
    no_mobile
        .locations
        .insert(Location { spawnable_entity_id: 1, room_id: None, last_room_id: None })
        .unwrap();
    no_mobile
        .players
        .insert(Player { spawnable_entity_id: 1, identity: Identity::from_byte_array([1; 32]) })
        .unwrap();
    assert!(!no_mobile.is_consistent());

    let mut no_location = Store::new();
    no_location.globals.insert(Globals { id: 0, spawnable_entity_id_counter: 1 }).unwrap();
    no_location
        .mobiles
        .insert(Mobile { spawnable_entity_id: 1, name: owned("a"), description: owned("") })
        .unwrap();
    assert!(!no_location.is_consistent());

    let mut no_player = Store::new();
    no_player.globals.insert(Globals { id: 0, spawnable_entity_id_counter: 1 }).unwrap();
    no_player
        .locations
        .insert(Location { spawnable_entity_id: 1, room_id: None, last_room_id: None })
        .unwrap();
    no_player
        .mobiles
        .insert(Mobile { spawnable_entity_id: 1, name: owned("a"), description: owned("") })
        .unwrap();
    assert!(!no_player.is_consistent());

    let mut only_player = Store::new();
    only_player.globals.insert(Globals { id: 0, spawnable_entity_id_counter: 1 }).unwrap();
    only_player
        .players
        .insert(Player { spawnable_entity_id: 1, identity: Identity::from_byte_array([1; 32]) })
        .unwrap();
    assert!(!only_player.is_consistent());
}

#[test]
fn an_entity_id_beyond_the_counter_is_not_consistent() {
    let mut store = Store::new();
    store.globals.insert(Globals { id: 0, spawnable_entity_id_counter: 4 }).unwrap();
    entity(&mut store, 4, 1);
    assert!(store.is_consistent());
    entity(&mut store, 5, 2);
    assert!(!store.is_consistent());

    let mut uncounted = Store::new();
    entity(&mut uncounted, 1, 1);
    assert!(!uncounted.is_consistent());
}

#[test]
fn an_exit_to_nowhere_is_not_consistent() {
    let mut store = Store::new();
    store.rooms.insert(bare_room("a", "z", vec![way("n", "b")])).unwrap();
    assert!(!store.is_consistent());
    store.rooms.insert(bare_room("b", "z", vec![])).unwrap();
    assert!(store.is_consistent());
}

#[test]
fn a_crossing_that_no_zone_records_is_not_consistent() {
    let mut store = Store::new();
    store.rooms.insert(bare_room("a", "za", vec![way("n", "b")])).unwrap();
    store.rooms.insert(bare_room("b", "zb", vec![])).unwrap();
    assert!(!store.is_consistent());
    store.zones.insert(bare_zone("zb", vec!["za"])).unwrap();
    assert!(!store.is_consistent());
    store.zones.insert(bare_zone("za", vec!["zc"])).unwrap();
    assert!(!store.is_consistent());

    let mut recorded = Store::new();
    recorded.rooms.insert(bare_room("a", "za", vec![way("n", "b")])).unwrap();
    recorded.rooms.insert(bare_room("b", "zb", vec![])).unwrap();
    recorded.zones.insert(bare_zone("za", vec!["zc", "zb"])).unwrap();
    assert!(recorded.is_consistent());
}

#[test]
fn a_zone_that_names_a_zone_twice_is_not_consistent() {
    let mut store = Store::new();
    store.zones.insert(bare_zone("za", vec!["zb", "zc"])).unwrap();
    assert!(store.is_consistent());
    store.zones.insert(bare_zone("zb", vec!["za", "zc", "za"])).unwrap();
    assert!(!store.is_consistent());
}

#[test]
fn engine_takes_a_store_only_if_it_is_consistent() {
    let mut broken = Store::new();
    broken.rooms.insert(bare_room("a", "z", vec![way("n", "b")])).unwrap();
    assert!(Engine::from_store(broken, 10).is_none());

    let mut sound = Store::new();
    initialize(&mut sound);
    create_player(&mut sound, &somebody(1), owned("Ann"), owned("")).unwrap();
    let mut engine = Engine::from_store(sound, 10).unwrap();
    assert_eq!(engine.scheduler().delay(), 10);
    assert_eq!(engine.scheduler().pending(), 0);
    assert_eq!(engine.store().players.len(), 1);
    assert_eq!(
        engine.invoke(
            &somebody(1),
            ReducerCall::Say { source_spawnable_entity_id: 1, chat_text: owned("hi") }
        ),
        Ok(())
    );
    assert_eq!(engine.store().room_chats.len(), 1);
}

#[test]
fn engine_hands_a_due_call_out_without_running_it() {
    let mut engine = Engine::new(10);
    engine.invoke(&somebody(1), ReducerCall::Initialize).unwrap();
    engine
        .invoke(&somebody(1), ReducerCall::CreatePlayer { name: owned("Ann"), description: owned("") })
        .unwrap();
    engine.invoke(&somebody(1), ReducerCall::Disconnect).unwrap();
    assert_eq!(engine.take_due(9), None);
    assert_eq!(engine.take_due(10), Some(Deferred { due: 10, call: DeferredCall::SignOut(1) }));
    assert_eq!(engine.scheduler().pending(), 0);
    let location = engine.store().locations.lookup_by_unique::<LocationByEntity>(&1).unwrap();
    assert_eq!(location.room_id, Some(owned("start")));
    assert_eq!(engine.run_due(u64::MAX), None);
}

#[test]
fn say_reports_a_full_chat_log() {
    let mut store = Store::new();
    initialize(&mut store);
    create_player(&mut store, &somebody(1), owned("Ann"), owned("")).unwrap();
    store
        .room_chats
        .insert(RoomChat {
            chat_entity_id: u64::MAX,
            room_id: owned("start"),
            source_spawnable_entity_id: 1,
            chat_text: owned("the last word"),
            timestamp: 0,
        })
        .unwrap();
    assert_eq!(say(&mut store, &somebody(1), 1, owned("one more")), Err(ReducerError::ChatLogFull));
    assert_eq!(store.room_chats.len(), 1);
}

#[test]
fn create_player_reports_exhausted_identifiers() {
    let mut store = Store::new();
    store.globals.insert(Globals { id: 0, spawnable_entity_id_counter: u64::MAX }).unwrap();
    assert_eq!(
        create_player(&mut store, &somebody(1), owned("Ann"), owned("")),
        Err(ReducerError::IdentifiersExhausted)
    );
    assert_eq!(store.players.len(), 0);
    assert_eq!(store.locations.len(), 0);
    assert_eq!(store.mobiles.len(), 0);
}
