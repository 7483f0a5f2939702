use text_adventure::identity::Identity;
use text_adventure::store::{ConstraintViolation, Table, UpdateError, UNASSIGNED};
use text_adventure::tables::{
    Globals, GlobalsById, Location, LocationByEntity, Player, PlayerByEntity, PlayerByIdentity,
    RoomChat, RoomChatById,
};

fn chat(id: u64, text: &str) -> RoomChat {
    RoomChat {
        chat_entity_id: id,
        room_id: "start".to_string(),
        source_spawnable_entity_id: 1,
        chat_text: text.to_string(),
        timestamp: 10,
    }
}

fn location(id: u64, room: Option<&str>) -> Location {
    Location {
        spawnable_entity_id: id,
        room_id: room.map(|r| r.to_string()),
        last_room_id: None,
    }
}

fn identity_of(byte: u8) -> Identity {
    Identity::from_byte_array([byte; 32])
}

#[test]
fn new_table_is_empty() {
    let table: Table<Globals> = Table::new();
    assert_eq!(table.len(), 0);
    assert!(table.iterate().is_empty());
    assert!(table.lookup_by_unique::<GlobalsById>(&0).is_none());
}

#[test]
fn insert_rejects_a_second_row_under_the_same_id() {
    let mut table: Table<Globals> = Table::new();
    assert!(table.insert(Globals { id: 0, spawnable_entity_id_counter: 0 }).is_ok());
    let second = table.insert(Globals { id: 0, spawnable_entity_id_counter: 7 });
    assert_eq!(second.err(), Some(ConstraintViolation::DuplicateKey));
    assert_eq!(table.len(), 1);
    let found = table.lookup_by_unique::<GlobalsById>(&0).unwrap();
    assert_eq!(found.spawnable_entity_id_counter, 0);
}

#[test]
fn insert_returns_the_row_as_stored() {
    let mut table: Table<Globals> = Table::new();
    let stored = table.insert(Globals { id: 3, spawnable_entity_id_counter: 9 }).unwrap();
    assert_eq!(stored, Globals { id: 3, spawnable_entity_id_counter: 9 });
}

#[test]
fn insert_assigns_the_next_value_to_an_unassigned_row() {
    let mut table: Table<RoomChat> = Table::new();
    let first = table.insert(chat(UNASSIGNED, "one")).unwrap();
    let second = table.insert(chat(UNASSIGNED, "two")).unwrap();
    assert_eq!(first.chat_entity_id, 1);
    assert_eq!(second.chat_entity_id, 2);
    assert_eq!(first.chat_text, "one");
    assert_eq!(table.len(), 2);
    assert_eq!(table.lookup_by_unique::<RoomChatById>(&2).unwrap().chat_text, "two");
}

#[test]
fn insert_keeps_an_explicit_value_and_assigns_beyond_it() {
    let mut table: Table<Location> = Table::new();
    let given = table.insert(location(5, Some("start"))).unwrap();
    assert_eq!(given.spawnable_entity_id, 5);
    let assigned = table.insert(location(UNASSIGNED, None)).unwrap();
    assert_eq!(assigned.spawnable_entity_id, 6);
    let lower = table.insert(location(2, None)).unwrap();
    assert_eq!(lower.spawnable_entity_id, 2);
    let next = table.insert(location(UNASSIGNED, None)).unwrap();
    assert_eq!(next.spawnable_entity_id, 7);
}

#[test]
fn insert_rejects_an_explicit_value_that_is_taken() {
    let mut table: Table<Location> = Table::new();
    table.insert(location(UNASSIGNED, None)).unwrap();
    let clash = table.insert(location(1, Some("start")));
    assert_eq!(clash.err(), Some(ConstraintViolation::DuplicateKey));
    assert_eq!(table.len(), 1);
    assert_eq!(table.lookup_by_unique::<LocationByEntity>(&1).unwrap().room_id, None);
}

#[test]
fn insert_reports_an_exhausted_sequence() {
    let mut table: Table<RoomChat> = Table::new();
    table.insert(chat(u64::MAX, "last")).unwrap();
    let refused = table.insert(chat(UNASSIGNED, "one too many"));
    assert_eq!(refused.err(), Some(ConstraintViolation::SequenceExhausted));
    assert_eq!(table.len(), 1);
    assert!(table.insert(chat(4, "explicit")).is_ok());
}

#[test]
fn insert_enforces_every_unique_column() {
    let mut table: Table<Player> = Table::new();
    table.insert(Player { spawnable_entity_id: 1, identity: identity_of(1) }).unwrap();
    let same_identity = table.insert(Player { spawnable_entity_id: 2, identity: identity_of(1) });
    assert_eq!(same_identity.err(), Some(ConstraintViolation::DuplicateKey));
    let same_entity = table.insert(Player { spawnable_entity_id: 1, identity: identity_of(2) });
    assert_eq!(same_entity.err(), Some(ConstraintViolation::DuplicateKey));
    assert!(table.insert(Player { spawnable_entity_id: 2, identity: identity_of(2) }).is_ok());
    assert_eq!(table.len(), 2);
}

#[test]
fn lookup_finds_a_row_by_each_unique_column() {
    let mut table: Table<Player> = Table::new();
    table.insert(Player { spawnable_entity_id: 1, identity: identity_of(1) }).unwrap();
    table.insert(Player { spawnable_entity_id: 2, identity: identity_of(2) }).unwrap();
    let by_identity = table.lookup_by_unique::<PlayerByIdentity>(&identity_of(2)).unwrap();
    assert_eq!(by_identity.spawnable_entity_id, 2);
    let by_entity = table.lookup_by_unique::<PlayerByEntity>(&1).unwrap();
    assert_eq!(by_entity.identity, identity_of(1));
    assert!(table.lookup_by_unique::<PlayerByIdentity>(&identity_of(3)).is_none());
    assert!(table.lookup_by_unique::<PlayerByEntity>(&3).is_none());
}

#[test]
fn update_by_key_replaces_the_row_in_place() {
    let mut table: Table<Location> = Table::new();
    table.insert(location(1, Some("a"))).unwrap();
    table.insert(location(2, Some("b"))).unwrap();
    table.insert(location(3, Some("c"))).unwrap();
    let outcome = table.update_by_key::<LocationByEntity>(&2, location(2, Some("z")));
    assert_eq!(outcome, Ok(()));
    let rooms: Vec<Option<String>> = table.iterate().iter().map(|l| l.room_id.clone()).collect();
    assert_eq!(
        rooms,
        vec![Some("a".to_string()), Some("z".to_string()), Some("c".to_string())]
    );
}

#[test]
fn update_by_key_reports_a_missing_key() {
    let mut table: Table<Location> = Table::new();
    table.insert(location(1, Some("a"))).unwrap();
    let outcome = table.update_by_key::<LocationByEntity>(&9, location(9, Some("z")));
    assert_eq!(outcome, Err(UpdateError::NotFound));
    assert_eq!(table.len(), 1);
    assert_eq!(table.iterate()[0], location(1, Some("a")));
}

#[test]
fn update_by_key_refuses_a_row_that_collides_with_another() {
    let mut table: Table<Player> = Table::new();
    table.insert(Player { spawnable_entity_id: 1, identity: identity_of(1) }).unwrap();
    table.insert(Player { spawnable_entity_id: 2, identity: identity_of(2) }).unwrap();
    let outcome = table
        .update_by_key::<PlayerByEntity>(&2, Player { spawnable_entity_id: 2, identity: identity_of(1) });
    assert_eq!(outcome, Err(UpdateError::DuplicateKey));
    assert_eq!(table.lookup_by_unique::<PlayerByEntity>(&2).unwrap().identity, identity_of(2));
    let renamed = table
        .update_by_key::<PlayerByEntity>(&2, Player { spawnable_entity_id: 5, identity: identity_of(2) });
    assert_eq!(renamed, Ok(()));
    assert!(table.lookup_by_unique::<PlayerByEntity>(&2).is_none());
    assert_eq!(table.lookup_by_unique::<PlayerByEntity>(&5).unwrap().identity, identity_of(2));
}

#[test]
fn update_by_key_moves_the_sequence_past_a_larger_value() {
    let mut table: Table<Location> = Table::new();
    table.insert(location(1, None)).unwrap();
    assert_eq!(table.update_by_key::<LocationByEntity>(&1, location(8, None)), Ok(()));
    let assigned = table.insert(location(UNASSIGNED, None)).unwrap();
    assert_eq!(assigned.spawnable_entity_id, 9);
}

#[test]
fn delete_by_key_takes_the_row_out() {
    let mut table: Table<Location> = Table::new();
    table.insert(location(1, Some("a"))).unwrap();
    table.insert(location(2, Some("b"))).unwrap();
    table.insert(location(3, Some("c"))).unwrap();
    let removed = table.delete_by_key::<LocationByEntity>(&2);
    assert_eq!(removed, Some(location(2, Some("b"))));
    assert!(table.lookup_by_unique::<LocationByEntity>(&2).is_none());
    let ids: Vec<u64> = table.iterate().iter().map(|l| l.spawnable_entity_id).collect();
    assert_eq!(ids, vec![1, 3]);
    assert_eq!(table.delete_by_key::<LocationByEntity>(&2), None);
    assert_eq!(table.len(), 2);
}

#[test]
fn delete_does_not_give_an_assigned_value_out_again() {
    let mut table: Table<RoomChat> = Table::new();
    table.insert(chat(UNASSIGNED, "one")).unwrap();
    table.insert(chat(UNASSIGNED, "two")).unwrap();
    table.delete_by_key::<RoomChatById>(&2).unwrap();
    let third = table.insert(chat(UNASSIGNED, "three")).unwrap();
    assert_eq!(third.chat_entity_id, 3);
}

#[test]
fn iterate_gives_the_rows_in_the_order_of_insertion() {
    let mut table: Table<RoomChat> = Table::new();
    table.insert(chat(UNASSIGNED, "one")).unwrap();
    table.insert(chat(UNASSIGNED, "two")).unwrap();
    table.insert(chat(UNASSIGNED, "three")).unwrap();
    let texts: Vec<&str> = table.iterate().iter().map(|c| c.chat_text.as_str()).collect();
    assert_eq!(texts, vec!["one", "two", "three"]);
    let again: Vec<u64> = table.iterate().iter().map(|c| c.chat_entity_id).collect();
    assert_eq!(again, vec![1, 2, 3]);
}

#[test]
fn identity_is_made_of_its_bytes() {
    let mut bytes = [0u8; 32];
    bytes[31] = 9;
    let identity = Identity::from_byte_array(bytes);
    assert_eq!(identity.as_bytes(), &bytes);
    assert!(identity.same(&Identity::from_byte_array(bytes)));
    assert!(!identity.same(&Identity::from_byte_array([0u8; 32])));
    assert_eq!(identity, Identity::from_byte_array(bytes));
}
