use text_adventure::errors::{EntityKind, ReducerError};

#[test]
fn messages_of_what_exists_already() {
    assert_eq!(
        ReducerError::AlreadyExists(EntityKind::Player).message(),
        "Player already exists"
    );
    assert_eq!(ReducerError::AlreadyExists(EntityKind::World).message(), "World already exists.");
    assert_eq!(ReducerError::AlreadyExists(EntityKind::Zone).message(), "Zone already exists.");
    assert_eq!(ReducerError::AlreadyExists(EntityKind::Room).message(), "Room already exists.");
}

#[test]
fn messages_of_what_is_missing() {
    assert_eq!(ReducerError::RoomNotFound("cellar".to_string()).message(), "cellar not found.");
    assert_eq!(ReducerError::ZoneNotFound("docks".to_string()).message(), "docks not found.");
    assert_eq!(ReducerError::RoomNotFound(String::new()).message(), " not found.");
    assert_eq!(ReducerError::NoMobile.message(), "No mobile found.");
    assert_eq!(ReducerError::NoLocation.message(), "No location found.");
    assert_eq!(ReducerError::NotInitialized.message(), "No globals found.");
}

#[test]
fn messages_of_what_cannot_be_done() {
    assert_eq!(ReducerError::InvalidExit.message(), "Invalid exit.");
    assert_eq!(ReducerError::IdentifiersExhausted.message(), "No entity id left.");
    assert_eq!(ReducerError::ChatLogFull.message(), "No chat id left.");
}
