use text_adventure::context::ReducerContext;
use text_adventure::errors::{EntityKind, ReducerError};
use text_adventure::graph::{
    create_connection, create_room, create_world, create_zone, find_exit, go,
};
use text_adventure::identity::Identity;
use text_adventure::players::{
    create_player, initialize, say, sign_in, sign_out, START_ROOM_DESCRIPTION, START_ROOM_ID,
    START_ROOM_NAME, START_WORLD_ID, START_ZONE_ID,
};
use text_adventure::tables::{
    Exit, ExitDirection, GlobalsById, Location, LocationByEntity, MobileByEntity, PlayerByEntity,
    PlayerByIdentity, Room, RoomById, RoomChat, WorldById, Zone, ZoneById,
};
use text_adventure::world::{next_spawnable_entity_id, Store, GLOBALS_ID};

fn caller(byte: u8, timestamp: u64) -> ReducerContext {
    ReducerContext { sender: Identity::from_byte_array([byte; 32]), timestamp }
}

fn text(s: &str) -> String {
    s.to_string()
}

fn exit(direction: &str, examine: &str, destination: &str) -> Exit {
    Exit {
        direction: text(direction),
        examine: text(examine),
        destination_room_id: text(destination),
    }
}

fn room<'a>(store: &'a Store, id: &str) -> &'a Room {
    store.rooms.lookup_by_unique::<RoomById>(&text(id)).unwrap()
}

fn zone<'a>(store: &'a Store, id: &str) -> &'a Zone {
    store.zones.lookup_by_unique::<ZoneById>(&text(id)).unwrap()
}

fn location_of(store: &Store, id: u64) -> Location {
    store.locations.lookup_by_unique::<LocationByEntity>(&id).unwrap().clone()
}

/// Two zones with one room each: "a" in "za" and "b" in "zb".
fn two_rooms() -> Store {
    let mut store = Store::new();
    initialize(&mut store);
    create_zone(&mut store, text("za"), text(START_WORLD_ID), text("A"), text("")).unwrap();
    create_zone(&mut store, text("zb"), text(START_WORLD_ID), text("B"), text("")).unwrap();
    create_room(&mut store, text("a"), text("za"), text("Room A"), text("")).unwrap();
    create_room(&mut store, text("b"), text("zb"), text("Room B"), text("")).unwrap();
    store
}

/// The store of `two_rooms` with a player that stands in "a".
fn player_in_a(store: &mut Store) -> u64 {
    create_connection(store, text(START_ROOM_ID), text("a"), text("in"), text(""), text(""), text(""))
        .unwrap();
    create_player(store, &caller(1, 0), text("Ann"), text("A player.")).unwrap();
    go(store, 1, text("in")).unwrap();
    1
}

#[test]
fn initialize_seeds_the_world() {
    let mut store = Store::new();
    initialize(&mut store);
    let globals = store.globals.lookup_by_unique::<GlobalsById>(&GLOBALS_ID).unwrap();
    assert_eq!(globals.spawnable_entity_id_counter, 0);
    assert!(store.worlds.lookup_by_unique::<WorldById>(&text(START_WORLD_ID)).is_some());
    assert_eq!(zone(&store, START_ZONE_ID).world_id, START_WORLD_ID);
    assert!(zone(&store, START_ZONE_ID).connecting_zones.is_empty());
    let start = room(&store, START_ROOM_ID);
    assert_eq!(start.room_id, "start");
    assert_eq!(start.zone_id, START_ZONE_ID);
    assert_eq!(start.name, START_ROOM_NAME);
    assert_eq!(start.name, "Clockwork Labs Lobby");
    assert_eq!(start.description, START_ROOM_DESCRIPTION);
    assert!(start.exits.is_empty());
}

#[test]
fn initialize_twice_changes_nothing() {
    let mut store = Store::new();
    initialize(&mut store);
    create_player(&mut store, &caller(1, 0), text("Ann"), text("")).unwrap();
    initialize(&mut store);
    assert_eq!(store.globals.len(), 1);
    assert_eq!(store.worlds.len(), 1);
    assert_eq!(store.zones.len(), 1);
    assert_eq!(store.rooms.len(), 1);
    let globals = store.globals.lookup_by_unique::<GlobalsById>(&GLOBALS_ID).unwrap();
    assert_eq!(globals.spawnable_entity_id_counter, 1);
}

#[test]
fn next_spawnable_entity_id_counts_up_from_one() {
    let mut store = Store::new();
    assert_eq!(next_spawnable_entity_id(&mut store), Err(ReducerError::NotInitialized));
    initialize(&mut store);
    assert_eq!(next_spawnable_entity_id(&mut store), Ok(1));
    assert_eq!(next_spawnable_entity_id(&mut store), Ok(2));
    assert_eq!(next_spawnable_entity_id(&mut store), Ok(3));
    let globals = store.globals.lookup_by_unique::<GlobalsById>(&GLOBALS_ID).unwrap();
    assert_eq!(globals.spawnable_entity_id_counter, 3);
}

#[test]
fn next_spawnable_entity_id_stops_at_the_largest() {
    let mut store = Store::new();
    store
        .globals
        .insert(text_adventure::tables::Globals {
            id: GLOBALS_ID,
            spawnable_entity_id_counter: u64::MAX - 1,
        })
        .unwrap();
    assert_eq!(next_spawnable_entity_id(&mut store), Ok(u64::MAX));
    assert_eq!(next_spawnable_entity_id(&mut store), Err(ReducerError::IdentifiersExhausted));
    let globals = store.globals.lookup_by_unique::<GlobalsById>(&GLOBALS_ID).unwrap();
    assert_eq!(globals.spawnable_entity_id_counter, u64::MAX);
}

#[test]
fn create_player_makes_the_three_rows_under_one_id() {
    let mut store = Store::new();
    initialize(&mut store);
    let ann = caller(1, 0);
    assert_eq!(create_player(&mut store, &ann, text("Ann"), text("Tall.")), Ok(()));
    let player = store.players.lookup_by_unique::<PlayerByIdentity>(&ann.sender).unwrap();
    assert_eq!(player.spawnable_entity_id, 1);
    let mobile = store.mobiles.lookup_by_unique::<MobileByEntity>(&1).unwrap();
    assert_eq!(mobile.name, "Ann");
    assert_eq!(mobile.description, "Tall.");
    assert_eq!(
        location_of(&store, 1),
        Location { spawnable_entity_id: 1, room_id: Some(text("start")), last_room_id: None }
    );
}

#[test]
fn create_player_twice_yields_already_exists() {
    let mut store = Store::new();
    initialize(&mut store);
    let ann = caller(1, 0);
    assert_eq!(create_player(&mut store, &ann, text("Ann"), text("")), Ok(()));
    let second = create_player(&mut store, &ann, text("Ann again"), text(""));
    assert_eq!(second, Err(ReducerError::AlreadyExists(EntityKind::Player)));
    assert_eq!(store.players.len(), 1);
    assert_eq!(store.locations.len(), 1);
    assert_eq!(store.mobiles.len(), 1);
    assert_eq!(store.mobiles.lookup_by_unique::<MobileByEntity>(&1).unwrap().name, "Ann");
    let globals = store.globals.lookup_by_unique::<GlobalsById>(&GLOBALS_ID).unwrap();
    assert_eq!(globals.spawnable_entity_id_counter, 1);
}

#[test]
fn create_player_gives_each_caller_an_id_of_its_own() {
    let mut store = Store::new();
    initialize(&mut store);
    create_player(&mut store, &caller(1, 0), text("Ann"), text("")).unwrap();
    create_player(&mut store, &caller(2, 0), text("Bob"), text("")).unwrap();
    let bob = store.players.lookup_by_unique::<PlayerByIdentity>(&caller(2, 0).sender).unwrap();
    assert_eq!(bob.spawnable_entity_id, 2);
    assert_eq!(store.mobiles.lookup_by_unique::<MobileByEntity>(&2).unwrap().name, "Bob");
    assert!(store.players.lookup_by_unique::<PlayerByEntity>(&1).is_some());
    assert_eq!(store.locations.len(), 2);
}

#[test]
fn create_player_needs_an_initialized_world() {
    let mut store = Store::new();
    let outcome = create_player(&mut store, &caller(1, 0), text("Ann"), text(""));
    assert_eq!(outcome, Err(ReducerError::NotInitialized));
    assert_eq!(store.players.len(), 0);
    assert_eq!(store.locations.len(), 0);
    assert_eq!(store.mobiles.len(), 0);
}

#[test]
fn create_world_zone_and_room_refuse_a_second_of_the_same_id() {
    let mut store = Store::new();
    assert_eq!(create_world(&mut store, text("w"), text("World"), text("")), Ok(()));
    assert_eq!(
        create_world(&mut store, text("w"), text("Other"), text("")),
        Err(ReducerError::AlreadyExists(EntityKind::World))
    );
    assert_eq!(create_zone(&mut store, text("z"), text("w"), text("Zone"), text("")), Ok(()));
    assert_eq!(
        create_zone(&mut store, text("z"), text("w"), text("Other"), text("")),
        Err(ReducerError::AlreadyExists(EntityKind::Zone))
    );
    assert_eq!(create_room(&mut store, text("r"), text("z"), text("Room"), text("")), Ok(()));
    assert_eq!(
        create_room(&mut store, text("r"), text("z"), text("Other"), text("")),
        Err(ReducerError::AlreadyExists(EntityKind::Room))
    );
    assert_eq!(store.worlds.len(), 1);
    assert_eq!(store.zones.len(), 1);
    assert_eq!(store.rooms.len(), 1);
    assert_eq!(store.worlds.lookup_by_unique::<WorldById>(&text("w")).unwrap().name, "World");
    assert_eq!(zone(&store, "z").name, "Zone");
    assert_eq!(room(&store, "r").name, "Room");
    assert_eq!(room(&store, "r").zone_id, "z");
}

#[test]
fn atomic_connection() {
    let mut store = two_rooms();
    let outcome =
        create_connection(&mut store, text("a"), text("b"), text("n"), text("s"), text("east"), text("west"));
    assert_eq!(outcome, Ok(()));
    assert_eq!(room(&store, "a").exits, vec![exit("n", "east", "b")]);
    assert_eq!(room(&store, "b").exits, vec![exit("s", "west", "a")]);
    assert_eq!(zone(&store, "za").connecting_zones, vec![text("zb")]);
    assert_eq!(zone(&store, "zb").connecting_zones, vec![text("za")]);
}

#[test]
fn atomic_connection_changes_nothing_without_the_second_room() {
    let mut store = two_rooms();
    let outcome =
        create_connection(&mut store, text("a"), text("c"), text("n"), text("s"), text("east"), text("west"));
    assert_eq!(outcome, Err(ReducerError::RoomNotFound(text("c"))));
    assert!(room(&store, "a").exits.is_empty());
    assert!(room(&store, "b").exits.is_empty());
    assert!(zone(&store, "za").connecting_zones.is_empty());
    assert!(zone(&store, "zb").connecting_zones.is_empty());
    assert_eq!(store.rooms.len(), 3);
}

#[test]
fn connection_changes_nothing_without_the_first_room() {
    let mut store = two_rooms();
    let outcome =
        create_connection(&mut store, text("c"), text("d"), text("n"), text("s"), text(""), text(""));
    assert_eq!(outcome, Err(ReducerError::RoomNotFound(text("c"))));
    assert!(room(&store, "b").exits.is_empty());
}

#[test]
fn one_way_connection_asymmetry() {
    let mut store = two_rooms();
    let outcome =
        create_connection(&mut store, text("a"), text("b"), text("n"), text(""), text("east"), text(""));
    assert_eq!(outcome, Ok(()));
    assert_eq!(room(&store, "a").exits, vec![exit("n", "east", "b")]);
    assert!(room(&store, "b").exits.is_empty());
    assert_eq!(zone(&store, "za").connecting_zones, vec![text("zb")]);
    assert!(zone(&store, "zb").connecting_zones.is_empty());
}

#[test]
fn connection_within_a_zone_records_no_adjacency() {
    let mut store = two_rooms();
    create_room(&mut store, text("a2"), text("za"), text("Room A2"), text("")).unwrap();
    let outcome =
        create_connection(&mut store, text("a"), text("a2"), text("e"), text("w"), text(""), text(""));
    assert_eq!(outcome, Ok(()));
    assert_eq!(room(&store, "a").exits, vec![exit("e", "", "a2")]);
    assert_eq!(room(&store, "a2").exits, vec![exit("w", "", "a")]);
    assert!(zone(&store, "za").connecting_zones.is_empty());
}

#[test]
fn connection_records_an_adjacency_once() {
    let mut store = two_rooms();
    create_connection(&mut store, text("a"), text("b"), text("n"), text("s"), text(""), text(""))
        .unwrap();
    create_connection(&mut store, text("a"), text("b"), text("up"), text("down"), text(""), text(""))
        .unwrap();
    assert_eq!(room(&store, "a").exits, vec![exit("n", "", "b"), exit("up", "", "b")]);
    assert_eq!(room(&store, "b").exits, vec![exit("s", "", "a"), exit("down", "", "a")]);
    assert_eq!(zone(&store, "za").connecting_zones, vec![text("zb")]);
    assert_eq!(zone(&store, "zb").connecting_zones, vec![text("za")]);
}

#[test]
fn connection_of_a_room_with_itself_appends_both_exits() {
    let mut store = two_rooms();
    let outcome =
        create_connection(&mut store, text("a"), text("a"), text("in"), text("out"), text("x"), text("y"));
    assert_eq!(outcome, Ok(()));
    assert_eq!(room(&store, "a").exits, vec![exit("in", "x", "a"), exit("out", "y", "a")]);
    assert!(zone(&store, "za").connecting_zones.is_empty());
}

#[test]
fn connection_needs_the_zones_that_gain_a_name() {
    let mut store = Store::new();
    create_zone(&mut store, text("zb"), text("w"), text("B"), text("")).unwrap();
    create_room(&mut store, text("a"), text("za"), text("Room A"), text("")).unwrap();
    create_room(&mut store, text("b"), text("zb"), text("Room B"), text("")).unwrap();
    let outcome =
        create_connection(&mut store, text("a"), text("b"), text("n"), text(""), text(""), text(""));
    assert_eq!(outcome, Err(ReducerError::ZoneNotFound(text("za"))));
    let back =
        create_connection(&mut store, text("b"), text("a"), text("s"), text("n"), text(""), text(""));
    assert_eq!(back, Err(ReducerError::ZoneNotFound(text("za"))));
    assert!(room(&store, "a").exits.is_empty());
    assert!(room(&store, "b").exits.is_empty());
    assert!(zone(&store, "zb").connecting_zones.is_empty());
    let one_way =
        create_connection(&mut store, text("b"), text("a"), text("s"), text(""), text(""), text(""));
    assert_eq!(one_way, Ok(()));
    assert_eq!(zone(&store, "zb").connecting_zones, vec![text("za")]);
    assert_eq!(room(&store, "b").exits, vec![exit("s", "", "a")]);
}

#[test]
fn navigation_round_trip() {
    let mut store = two_rooms();
    let player = player_in_a(&mut store);
    create_connection(&mut store, text("a"), text("b"), text("n"), text("s"), text("east"), text("west"))
        .unwrap();
    assert_eq!(go(&mut store, player, text("n")), Ok(()));
    assert_eq!(
        location_of(&store, player),
        Location { spawnable_entity_id: 1, room_id: Some(text("b")), last_room_id: Some(text("a")) }
    );
    assert_eq!(go(&mut store, player, text("s")), Ok(()));
    assert_eq!(
        location_of(&store, player),
        Location { spawnable_entity_id: 1, room_id: Some(text("a")), last_room_id: Some(text("b")) }
    );
}

#[test]
fn invalid_exit() {
    let mut store = two_rooms();
    let player = player_in_a(&mut store);
    create_connection(&mut store, text("a"), text("b"), text("n"), text("s"), text(""), text(""))
        .unwrap();
    let before = location_of(&store, player);
    assert_eq!(go(&mut store, player, text("x")), Err(ReducerError::InvalidExit));
    assert_eq!(location_of(&store, player), before);
    assert_eq!(before.room_id, Some(text("a")));
}

#[test]
fn go_takes_the_first_exit_in_a_direction() {
    let mut store = two_rooms();
    let player = player_in_a(&mut store);
    create_room(&mut store, text("c"), text("za"), text("Room C"), text("")).unwrap();
    create_connection(&mut store, text("a"), text("b"), text("n"), text(""), text(""), text(""))
        .unwrap();
    create_connection(&mut store, text("a"), text("c"), text("n"), text(""), text(""), text(""))
        .unwrap();
    assert_eq!(go(&mut store, player, text("n")), Ok(()));
    assert_eq!(location_of(&store, player).room_id, Some(text("b")));
}

#[test]
fn go_needs_a_location_and_a_room() {
    let mut store = two_rooms();
    assert_eq!(go(&mut store, 7, text("n")), Err(ReducerError::NoMobile));
    let player = player_in_a(&mut store);
    sign_out(&mut store, player).unwrap();
    assert_eq!(go(&mut store, player, text("n")), Err(ReducerError::NoLocation));
    assert_eq!(
        location_of(&store, player),
        Location { spawnable_entity_id: 1, room_id: None, last_room_id: Some(text("a")) }
    );
}

#[test]
fn go_reports_a_room_that_is_missing() {
    let mut store = Store::new();
    store
        .globals
        .insert(text_adventure::tables::Globals { id: GLOBALS_ID, spawnable_entity_id_counter: 0 })
        .unwrap();
    create_player(&mut store, &caller(1, 0), text("Ann"), text("")).unwrap();
    assert_eq!(go(&mut store, 1, text("n")), Err(ReducerError::RoomNotFound(text("start"))));
    assert_eq!(location_of(&store, 1).room_id, Some(text("start")));
}

#[test]
fn find_exit_gives_the_first_match_or_none() {
    let exits = vec![exit("n", "one", "b"), exit("s", "two", "c"), exit("n", "three", "d")];
    assert_eq!(find_exit(&exits, &text("n")), Some(&exits[0]));
    assert_eq!(find_exit(&exits, &text("s")), Some(&exits[1]));
    assert_eq!(find_exit(&exits, &text("x")), None);
    assert_eq!(find_exit(&Vec::new(), &text("n")), None);
}

#[test]
fn say_appends_to_the_chat_log_of_the_room() {
    let mut store = two_rooms();
    let player = player_in_a(&mut store);
    assert_eq!(say(&mut store, &caller(1, 500), player, text("hello")), Ok(()));
    assert_eq!(say(&mut store, &caller(1, 900), player, text("anyone?")), Ok(()));
    let chats: Vec<RoomChat> = store.room_chats.iterate().to_vec();
    assert_eq!(
        chats,
        vec![
            RoomChat {
                chat_entity_id: 1,
                room_id: text("a"),
                source_spawnable_entity_id: 1,
                chat_text: text("hello"),
                timestamp: 500,
            },
            RoomChat {
                chat_entity_id: 2,
                room_id: text("a"),
                source_spawnable_entity_id: 1,
                chat_text: text("anyone?"),
                timestamp: 900,
            },
        ]
    );
}

#[test]
fn chat_requires_presence() {
    let mut store = two_rooms();
    assert_eq!(say(&mut store, &caller(1, 0), 42, text("hello")), Err(ReducerError::NoMobile));
    assert_eq!(store.room_chats.len(), 0);
    let player = player_in_a(&mut store);
    sign_out(&mut store, player).unwrap();
    assert_eq!(say(&mut store, &caller(1, 0), player, text("hello")), Err(ReducerError::NoLocation));
    assert_eq!(store.room_chats.len(), 0);
}

#[test]
fn sign_out_then_sign_in_restores_the_room() {
    let online =
        Location { spawnable_entity_id: 1, room_id: Some(text("start")), last_room_id: None };
    let mut store = Store::new();
    initialize(&mut store);
    create_player(&mut store, &caller(1, 0), text("Ann"), text("")).unwrap();
    assert_eq!(location_of(&store, 1), online);
    assert_eq!(sign_out(&mut store, 1), Ok(()));
    assert_eq!(
        location_of(&store, 1),
        Location { spawnable_entity_id: 1, room_id: None, last_room_id: Some(text("start")) }
    );
    assert_eq!(sign_in(&mut store, 1), Ok(()));
    assert_eq!(location_of(&store, 1), online);
}

#[test]
fn sign_in_of_a_player_that_is_in_the_world_takes_its_room() {
    let mut store = Store::new();
    initialize(&mut store);
    create_player(&mut store, &caller(1, 0), text("Ann"), text("")).unwrap();
    assert_eq!(sign_in(&mut store, 1), Ok(()));
    assert_eq!(
        location_of(&store, 1),
        Location { spawnable_entity_id: 1, room_id: None, last_room_id: None }
    );
}

#[test]
fn sign_in_and_sign_out_report_a_missing_entity() {
    let mut store = two_rooms();
    assert_eq!(sign_in(&mut store, 3), Err(ReducerError::NoMobile));
    assert_eq!(sign_out(&mut store, 3), Err(ReducerError::NoMobile));
    assert_eq!(store.locations.len(), 0);
}

#[test]
fn sign_out_of_a_player_that_moved_keeps_its_room_as_the_last() {
    let mut store = two_rooms();
    let player = player_in_a(&mut store);
    sign_out(&mut store, player).unwrap();
    assert_eq!(
        location_of(&store, player),
        Location { spawnable_entity_id: 1, room_id: None, last_room_id: Some(text("a")) }
    );
    sign_in(&mut store, player).unwrap();
    assert_eq!(
        location_of(&store, player),
        Location { spawnable_entity_id: 1, room_id: Some(text("a")), last_room_id: None }
    );
}

#[test]
fn exit_directions_are_told_apart() {
    assert_eq!(ExitDirection::N, ExitDirection::N);
    assert_ne!(ExitDirection::N, ExitDirection::S);
    let all = [
        ExitDirection::N,
        ExitDirection::NW,
        ExitDirection::W,
        ExitDirection::SW,
        ExitDirection::S,
        ExitDirection::SE,
        ExitDirection::E,
        ExitDirection::NE,
        ExitDirection::U,
        ExitDirection::D,
    ];
    for (i, a) in all.iter().enumerate() {
        for (j, b) in all.iter().enumerate() {
            assert_eq!(a == b, i == j);
        }
    }
}
