//! The failures that a reducer reports to its caller.

use vstd::prelude::*;
use vstd::string::StringExecFns;

verus! {

/// The kinds of entity that are made under an id of their own.
#[derive(Clone, Copy, Debug, PartialEq, Eq, Structural)]
pub enum EntityKind {
    Player,
    World,
    Zone,
    Room,
}

/// Why a reducer changed nothing.
#[derive(Debug, PartialEq, Eq)]
pub enum ReducerError {
    /// An entity of this kind is there already under the id.
    AlreadyExists(EntityKind),
    /// No room has this id.
    RoomNotFound(String),
    /// No zone has this id.
    ZoneNotFound(String),
    /// The entity has no location row.
    NoMobile,
    /// The entity is in no room.
    NoLocation,
    /// No exit of the room goes in the direction.
    InvalidExit,
    /// The row of counters is missing: the world was never initialized.
    NotInitialized,
    /// The counter of entity ids has reached its largest value.
    IdentifiersExhausted,
    /// The chat log has given out its largest id.
    ChatLogFull,
}

/// A failure, with the ids that it names as sequences of characters.
pub enum ReducerErrorView {
    AlreadyExists(EntityKind),
    RoomNotFound(Seq<char>),
    ZoneNotFound(Seq<char>),
    NoMobile,
    NoLocation,
    InvalidExit,
    NotInitialized,
    IdentifiersExhausted,
    ChatLogFull,
}

impl View for ReducerError {
    type V = ReducerErrorView;

    open spec fn view(&self) -> ReducerErrorView {
        match self {
            ReducerError::AlreadyExists(kind) => ReducerErrorView::AlreadyExists(*kind),
            ReducerError::RoomNotFound(id) => ReducerErrorView::RoomNotFound(id@),
            ReducerError::ZoneNotFound(id) => ReducerErrorView::ZoneNotFound(id@),
            ReducerError::NoMobile => ReducerErrorView::NoMobile,
            ReducerError::NoLocation => ReducerErrorView::NoLocation,
            ReducerError::InvalidExit => ReducerErrorView::InvalidExit,
            ReducerError::NotInitialized => ReducerErrorView::NotInitialized,
            ReducerError::IdentifiersExhausted => ReducerErrorView::IdentifiersExhausted,
            ReducerError::ChatLogFull => ReducerErrorView::ChatLogFull,
        }
    }
}

impl Clone for ReducerError {
    fn clone(&self) -> (copy: Self)
        ensures
            copy@ == self@,
    {
        match self {
            ReducerError::AlreadyExists(kind) => ReducerError::AlreadyExists(*kind),
            ReducerError::RoomNotFound(id) => ReducerError::RoomNotFound(id.clone()),
            ReducerError::ZoneNotFound(id) => ReducerError::ZoneNotFound(id.clone()),
            ReducerError::NoMobile => ReducerError::NoMobile,
            ReducerError::NoLocation => ReducerError::NoLocation,
            ReducerError::InvalidExit => ReducerError::InvalidExit,
            ReducerError::NotInitialized => ReducerError::NotInitialized,
            ReducerError::IdentifiersExhausted => ReducerError::IdentifiersExhausted,
            ReducerError::ChatLogFull => ReducerError::ChatLogFull,
        }
    }
}

/// The text by which a failure is reported.
pub open spec fn message_text(error: ReducerErrorView) -> Seq<char> {
    match error {
        ReducerErrorView::AlreadyExists(EntityKind::Player) => "Player already exists"@,
        ReducerErrorView::AlreadyExists(EntityKind::World) => "World already exists."@,
        ReducerErrorView::AlreadyExists(EntityKind::Zone) => "Zone already exists."@,
        ReducerErrorView::AlreadyExists(EntityKind::Room) => "Room already exists."@,
        ReducerErrorView::RoomNotFound(id) => id + " not found."@,
        ReducerErrorView::ZoneNotFound(id) => id + " not found."@,
        ReducerErrorView::NoMobile => "No mobile found."@,
        ReducerErrorView::NoLocation => "No location found."@,
        ReducerErrorView::InvalidExit => "Invalid exit."@,
        ReducerErrorView::NotInitialized => "No globals found."@,
        ReducerErrorView::IdentifiersExhausted => "No entity id left."@,
        ReducerErrorView::ChatLogFull => "No chat id left."@,
    }
}

impl ReducerError {
    /// The text by which this failure is reported.
    pub fn message(&self) -> (text: String)
        ensures
            text@ == message_text(self@),
    {
        match self {
            ReducerError::AlreadyExists(EntityKind::Player) => "Player already exists".to_owned(),
            ReducerError::AlreadyExists(EntityKind::World) => "World already exists.".to_owned(),
            ReducerError::AlreadyExists(EntityKind::Zone) => "Zone already exists.".to_owned(),
            ReducerError::AlreadyExists(EntityKind::Room) => "Room already exists.".to_owned(),
            ReducerError::RoomNotFound(id) => {
                let mut text = id.clone();
                text.append(" not found.");
                text
            },
            ReducerError::ZoneNotFound(id) => {
                let mut text = id.clone();
                text.append(" not found.");
                text
            },
            ReducerError::NoMobile => "No mobile found.".to_owned(),
            ReducerError::NoLocation => "No location found.".to_owned(),
            ReducerError::InvalidExit => "Invalid exit.".to_owned(),
            ReducerError::NotInitialized => "No globals found.".to_owned(),
            ReducerError::IdentifiersExhausted => "No entity id left.".to_owned(),
            ReducerError::ChatLogFull => "No chat id left.".to_owned(),
        }
    }
}

} // verus!
