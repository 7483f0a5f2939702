//! The rows of the world's tables, each with its mathematical view and the
//! key constraints that its table enforces.

use crate::identity::Identity;
use crate::store::{Column, Row};
use vstd::prelude::*;

verus! {

/// The world's single row of counters. It is kept under the id 0.
#[derive(Clone, Copy, Debug, PartialEq, Eq)]
pub struct Globals {
    pub id: u32,
    /// The last entity id that was given out.
    pub spawnable_entity_id_counter: u64,
}

impl View for Globals {
    type V = Globals;

    open spec fn view(&self) -> Globals {
        *self
    }
}

impl Row for Globals {
    open spec fn collides(a: Globals, b: Globals) -> bool {
        a.id == b.id
    }

    open spec fn auto_value(row: Globals) -> Option<u64> {
        None
    }

    open spec fn with_auto_value(row: Globals, value: u64) -> Globals {
        row
    }

    proof fn lemma_collides_symmetric(a: Globals, b: Globals) {
    }

    proof fn lemma_auto_value_assigned(row: Globals, value: u64) {
    }

    fn collides_with(&self, other: &Self) -> (hit: bool) {
        self.id == other.id
    }

    fn auto_column(&self) -> (value: Option<u64>) {
        None
    }

    fn set_auto_column(&mut self, value: u64) {
    }

    fn replica(&self) -> (copy: Self) {
        Globals { id: self.id, spawnable_entity_id_counter: self.spawnable_entity_id_counter }
    }
}

/// The unique column `Globals::id`.
pub struct GlobalsById;

impl Column<Globals> for GlobalsById {
    type Key = u32;

    open spec fn key(row: Globals) -> u32 {
        row.id
    }

    proof fn lemma_declared_unique(a: Globals, b: Globals) {
    }

    fn holds(row: &Globals, key: &u32) -> (hit: bool) {
        row.id == *key
    }
}

/// The compass points, up and down: the directions that exits are usually
/// named after.
#[derive(Clone, Copy, Debug, PartialEq, Eq, Structural)]
pub enum ExitDirection {
    N,
    NW,
    W,
    SW,
    S,
    SE,
    E,
    NE,
    U,
    D,
}

/// A way out of a room. It has no key of its own: it lives in `Room::exits`.
#[derive(Debug, PartialEq, Eq)]
pub struct Exit {
    pub direction: String,
    /// What a player sees who examines the exit.
    pub examine: String,
    pub destination_room_id: String,
}

/// The mathematical view of an exit.
pub struct ExitView {
    pub direction: Seq<char>,
    pub examine: Seq<char>,
    pub destination_room_id: Seq<char>,
}

impl View for Exit {
    type V = ExitView;

    open spec fn view(&self) -> ExitView {
        ExitView {
            direction: self.direction@,
            examine: self.examine@,
            destination_room_id: self.destination_room_id@,
        }
    }
}

impl Exit {
    /// A copy of this exit.
    pub fn replica(&self) -> (copy: Self)
        ensures
            copy@ == self@,
    {
        Exit {
            direction: self.direction.clone(),
            examine: self.examine.clone(),
            destination_room_id: self.destination_room_id.clone(),
        }
    }
}

impl Clone for Exit {
    fn clone(&self) -> (copy: Self)
        ensures
            copy@ == self@,
    {
        self.replica()
    }
}

/// The views of `exits`, in their order.
pub open spec fn exit_views(exits: Seq<Exit>) -> Seq<ExitView> {
    Seq::new(exits.len(), |i: int| exits[i]@)
}

/// A copy of `exits`.
pub fn replicate_exits(exits: &Vec<Exit>) -> (copy: Vec<Exit>)
    ensures
        exit_views(copy@) == exit_views(exits@),
{
    let mut copy: Vec<Exit> = Vec::new();
    let mut i: usize = 0;
    while i < exits.len()
        invariant
            i <= exits.len(),
            copy.len() == i,
            forall|k: int| 0 <= k < i ==> (#[trigger] copy@[k])@ == exits@[k]@,
        decreases exits.len() - i,
    {
        copy.push(exits[i].replica());
        i += 1;
    }
    assert(exit_views(copy@) =~= exit_views(exits@));
    copy
}

/// A place in the world.
#[derive(Debug, PartialEq, Eq)]
pub struct Room {
    pub room_id: String,
    pub zone_id: String,
    pub name: String,
    pub description: String,
    /// The ways out, in the order in which they were made.
    pub exits: Vec<Exit>,
}

/// The mathematical view of a room.
pub struct RoomView {
    pub room_id: Seq<char>,
    pub zone_id: Seq<char>,
    pub name: Seq<char>,
    pub description: Seq<char>,
    pub exits: Seq<ExitView>,
}

impl View for Room {
    type V = RoomView;

    open spec fn view(&self) -> RoomView {
        RoomView {
            room_id: self.room_id@,
            zone_id: self.zone_id@,
            name: self.name@,
            description: self.description@,
            exits: exit_views(self.exits@),
        }
    }
}

impl Clone for Room {
    fn clone(&self) -> (copy: Self)
        ensures
            copy@ == self@,
    {
        self.replica()
    }
}

impl Row for Room {
    open spec fn collides(a: RoomView, b: RoomView) -> bool {
        a.room_id == b.room_id
    }

    open spec fn auto_value(row: RoomView) -> Option<u64> {
        None
    }

    open spec fn with_auto_value(row: RoomView, value: u64) -> RoomView {
        row
    }

    proof fn lemma_collides_symmetric(a: RoomView, b: RoomView) {
    }

    proof fn lemma_auto_value_assigned(row: RoomView, value: u64) {
    }

    fn collides_with(&self, other: &Self) -> (hit: bool) {
        self.room_id == other.room_id
    }

    fn auto_column(&self) -> (value: Option<u64>) {
        None
    }

    fn set_auto_column(&mut self, value: u64) {
    }

    fn replica(&self) -> (copy: Self) {
        Room {
            room_id: self.room_id.clone(),
            zone_id: self.zone_id.clone(),
            name: self.name.clone(),
            description: self.description.clone(),
            exits: replicate_exits(&self.exits),
        }
    }
}

/// The unique column `Room::room_id`.
pub struct RoomById;

impl Column<Room> for RoomById {
    type Key = String;

    open spec fn key(row: RoomView) -> Seq<char> {
        row.room_id
    }

    proof fn lemma_declared_unique(a: RoomView, b: RoomView) {
    }

    fn holds(row: &Room, key: &String) -> (hit: bool) {
        row.room_id == *key
    }
}

/// The view of a text that may be absent.
pub open spec fn optional_text(text: Option<String>) -> Option<Seq<char>> {
    match text {
        Some(t) => Some(t@),
        None => None,
    }
}

/// A copy of `text`.
pub fn replicate_optional_text(text: &Option<String>) -> (copy: Option<String>)
    ensures
        optional_text(copy) == optional_text(*text),
{
    match text {
        Some(t) => Some(t.clone()),
        None => None,
    }
}

/// The views of `texts`, in their order.
pub open spec fn text_views(texts: Seq<String>) -> Seq<Seq<char>> {
    Seq::new(texts.len(), |i: int| texts[i]@)
}

/// A copy of `texts`.
pub fn replicate_texts(texts: &Vec<String>) -> (copy: Vec<String>)
    ensures
        text_views(copy@) == text_views(texts@),
{
    let mut copy: Vec<String> = Vec::new();
    let mut i: usize = 0;
    while i < texts.len()
        invariant
            i <= texts.len(),
            copy.len() == i,
            forall|k: int| 0 <= k < i ==> (#[trigger] copy@[k])@ == texts@[k]@,
        decreases texts.len() - i,
    {
        copy.push(texts[i].clone());
        i += 1;
    }
    assert(text_views(copy@) =~= text_views(texts@));
    copy
}

/// The top-level container of zones.
#[derive(Debug, PartialEq, Eq)]
pub struct World {
    pub world_id: String,
    pub name: String,
    pub description: String,
}

/// The mathematical view of a world.
pub struct WorldView {
    pub world_id: Seq<char>,
    pub name: Seq<char>,
    pub description: Seq<char>,
}

impl View for World {
    type V = WorldView;

    open spec fn view(&self) -> WorldView {
        WorldView { world_id: self.world_id@, name: self.name@, description: self.description@ }
    }
}

impl Clone for World {
    fn clone(&self) -> (copy: Self)
        ensures
            copy@ == self@,
    {
        self.replica()
    }
}

impl Row for World {
    open spec fn collides(a: WorldView, b: WorldView) -> bool {
        a.world_id == b.world_id
    }

    open spec fn auto_value(row: WorldView) -> Option<u64> {
        None
    }

    open spec fn with_auto_value(row: WorldView, value: u64) -> WorldView {
        row
    }

    proof fn lemma_collides_symmetric(a: WorldView, b: WorldView) {
    }

    proof fn lemma_auto_value_assigned(row: WorldView, value: u64) {
    }

    fn collides_with(&self, other: &Self) -> (hit: bool) {
        self.world_id == other.world_id
    }

    fn auto_column(&self) -> (value: Option<u64>) {
        None
    }

    fn set_auto_column(&mut self, value: u64) {
    }

    fn replica(&self) -> (copy: Self) {
        World {
            world_id: self.world_id.clone(),
            name: self.name.clone(),
            description: self.description.clone(),
        }
    }
}

/// The unique column `World::world_id`.
pub struct WorldById;

impl Column<World> for WorldById {
    type Key = String;

    open spec fn key(row: WorldView) -> Seq<char> {
        row.world_id
    }

    proof fn lemma_declared_unique(a: WorldView, b: WorldView) {
    }

    fn holds(row: &World, key: &String) -> (hit: bool) {
        row.world_id == *key
    }
}

/// A group of rooms within a world.
#[derive(Debug, PartialEq, Eq)]
pub struct Zone {
    pub zone_id: String,
    pub world_id: String,
    pub name: String,
    pub description: String,
    /// The zones into which an exit leads from a room of this zone.
    pub connecting_zones: Vec<String>,
}

/// The mathematical view of a zone.
pub struct ZoneView {
    pub zone_id: Seq<char>,
    pub world_id: Seq<char>,
    pub name: Seq<char>,
    pub description: Seq<char>,
    pub connecting_zones: Seq<Seq<char>>,
}

impl View for Zone {
    type V = ZoneView;

    open spec fn view(&self) -> ZoneView {
        ZoneView {
            zone_id: self.zone_id@,
            world_id: self.world_id@,
            name: self.name@,
            description: self.description@,
            connecting_zones: text_views(self.connecting_zones@),
        }
    }
}

impl Clone for Zone {
    fn clone(&self) -> (copy: Self)
        ensures
            copy@ == self@,
    {
        self.replica()
    }
}

impl Row for Zone {
    open spec fn collides(a: ZoneView, b: ZoneView) -> bool {
        a.zone_id == b.zone_id
    }

    open spec fn auto_value(row: ZoneView) -> Option<u64> {
        None
    }

    open spec fn with_auto_value(row: ZoneView, value: u64) -> ZoneView {
        row
    }

    proof fn lemma_collides_symmetric(a: ZoneView, b: ZoneView) {
    }

    proof fn lemma_auto_value_assigned(row: ZoneView, value: u64) {
    }

    fn collides_with(&self, other: &Self) -> (hit: bool) {
        self.zone_id == other.zone_id
    }

    fn auto_column(&self) -> (value: Option<u64>) {
        None
    }

    fn set_auto_column(&mut self, value: u64) {
    }

    fn replica(&self) -> (copy: Self) {
        Zone {
            zone_id: self.zone_id.clone(),
            world_id: self.world_id.clone(),
            name: self.name.clone(),
            description: self.description.clone(),
            connecting_zones: replicate_texts(&self.connecting_zones),
        }
    }
}

/// The unique column `Zone::zone_id`.
pub struct ZoneById;

impl Column<Zone> for ZoneById {
    type Key = String;

    open spec fn key(row: ZoneView) -> Seq<char> {
        row.zone_id
    }

    proof fn lemma_declared_unique(a: ZoneView, b: ZoneView) {
    }

    fn holds(row: &Zone, key: &String) -> (hit: bool) {
        row.zone_id == *key
    }
}

/// Where an entity is. An entity that is in the world has a `room_id`; one
/// that has left it keeps the room it was in as `last_room_id`.
#[derive(Debug, PartialEq, Eq)]
pub struct Location {
    pub spawnable_entity_id: u64,
    pub room_id: Option<String>,
    pub last_room_id: Option<String>,
}

/// The mathematical view of a location.
pub struct LocationView {
    pub spawnable_entity_id: u64,
    pub room_id: Option<Seq<char>>,
    pub last_room_id: Option<Seq<char>>,
}

impl View for Location {
    type V = LocationView;

    open spec fn view(&self) -> LocationView {
        LocationView {
            spawnable_entity_id: self.spawnable_entity_id,
            room_id: optional_text(self.room_id),
            last_room_id: optional_text(self.last_room_id),
        }
    }
}

impl Clone for Location {
    fn clone(&self) -> (copy: Self)
        ensures
            copy@ == self@,
    {
        self.replica()
    }
}

impl Row for Location {
    open spec fn collides(a: LocationView, b: LocationView) -> bool {
        a.spawnable_entity_id == b.spawnable_entity_id
    }

    open spec fn auto_value(row: LocationView) -> Option<u64> {
        Some(row.spawnable_entity_id)
    }

    open spec fn with_auto_value(row: LocationView, value: u64) -> LocationView {
        LocationView { spawnable_entity_id: value, ..row }
    }

    proof fn lemma_collides_symmetric(a: LocationView, b: LocationView) {
    }

    proof fn lemma_auto_value_assigned(row: LocationView, value: u64) {
    }

    fn collides_with(&self, other: &Self) -> (hit: bool) {
        self.spawnable_entity_id == other.spawnable_entity_id
    }

    fn auto_column(&self) -> (value: Option<u64>) {
        Some(self.spawnable_entity_id)
    }

    fn set_auto_column(&mut self, value: u64) {
        self.spawnable_entity_id = value;
    }

    fn replica(&self) -> (copy: Self) {
        Location {
            spawnable_entity_id: self.spawnable_entity_id,
            room_id: replicate_optional_text(&self.room_id),
            last_room_id: replicate_optional_text(&self.last_room_id),
        }
    }
}

/// The unique column `Location::spawnable_entity_id`.
pub struct LocationByEntity;

impl Column<Location> for LocationByEntity {
    type Key = u64;

    open spec fn key(row: LocationView) -> u64 {
        row.spawnable_entity_id
    }

    proof fn lemma_declared_unique(a: LocationView, b: LocationView) {
    }

    fn holds(row: &Location, key: &u64) -> (hit: bool) {
        row.spawnable_entity_id == *key
    }
}

/// What every entity that can move has: a name and a look.
#[derive(Debug, PartialEq, Eq)]
pub struct Mobile {
    pub spawnable_entity_id: u64,
    pub name: String,
    pub description: String,
}

/// The mathematical view of a mobile.
pub struct MobileView {
    pub spawnable_entity_id: u64,
    pub name: Seq<char>,
    pub description: Seq<char>,
}

impl View for Mobile {
    type V = MobileView;

    open spec fn view(&self) -> MobileView {
        MobileView {
            spawnable_entity_id: self.spawnable_entity_id,
            name: self.name@,
            description: self.description@,
        }
    }
}

impl Clone for Mobile {
    fn clone(&self) -> (copy: Self)
        ensures
            copy@ == self@,
    {
        self.replica()
    }
}

impl Row for Mobile {
    open spec fn collides(a: MobileView, b: MobileView) -> bool {
        a.spawnable_entity_id == b.spawnable_entity_id
    }

    open spec fn auto_value(row: MobileView) -> Option<u64> {
        None
    }

    open spec fn with_auto_value(row: MobileView, value: u64) -> MobileView {
        row
    }

    proof fn lemma_collides_symmetric(a: MobileView, b: MobileView) {
    }

    proof fn lemma_auto_value_assigned(row: MobileView, value: u64) {
    }

    fn collides_with(&self, other: &Self) -> (hit: bool) {
        self.spawnable_entity_id == other.spawnable_entity_id
    }

    fn auto_column(&self) -> (value: Option<u64>) {
        None
    }

    fn set_auto_column(&mut self, value: u64) {
    }

    fn replica(&self) -> (copy: Self) {
        Mobile {
            spawnable_entity_id: self.spawnable_entity_id,
            name: self.name.clone(),
            description: self.description.clone(),
        }
    }
}

/// The unique column `Mobile::spawnable_entity_id`.
pub struct MobileByEntity;

impl Column<Mobile> for MobileByEntity {
    type Key = u64;

    open spec fn key(row: MobileView) -> u64 {
        row.spawnable_entity_id
    }

    proof fn lemma_declared_unique(a: MobileView, b: MobileView) {
    }

    fn holds(row: &Mobile, key: &u64) -> (hit: bool) {
        row.spawnable_entity_id == *key
    }
}

/// The entity that a caller plays. A caller has one player at most.
#[derive(Clone, Copy, Debug, PartialEq, Eq)]
pub struct Player {
    pub spawnable_entity_id: u64,
    pub identity: Identity,
}

/// The mathematical view of a player.
pub struct PlayerView {
    pub spawnable_entity_id: u64,
    pub identity: Seq<u8>,
}

impl View for Player {
    type V = PlayerView;

    open spec fn view(&self) -> PlayerView {
        PlayerView { spawnable_entity_id: self.spawnable_entity_id, identity: self.identity@ }
    }
}

impl Row for Player {
    open spec fn collides(a: PlayerView, b: PlayerView) -> bool {
        a.spawnable_entity_id == b.spawnable_entity_id || a.identity == b.identity
    }

    open spec fn auto_value(row: PlayerView) -> Option<u64> {
        None
    }

    open spec fn with_auto_value(row: PlayerView, value: u64) -> PlayerView {
        row
    }

    proof fn lemma_collides_symmetric(a: PlayerView, b: PlayerView) {
    }

    proof fn lemma_auto_value_assigned(row: PlayerView, value: u64) {
    }

    fn collides_with(&self, other: &Self) -> (hit: bool) {
        self.spawnable_entity_id == other.spawnable_entity_id || self.identity.same(
            &other.identity,
        )
    }

    fn auto_column(&self) -> (value: Option<u64>) {
        None
    }

    fn set_auto_column(&mut self, value: u64) {
    }

    fn replica(&self) -> (copy: Self) {
        Player { spawnable_entity_id: self.spawnable_entity_id, identity: self.identity }
    }
}

/// The unique column `Player::spawnable_entity_id`.
pub struct PlayerByEntity;

impl Column<Player> for PlayerByEntity {
    type Key = u64;

    open spec fn key(row: PlayerView) -> u64 {
        row.spawnable_entity_id
    }

    proof fn lemma_declared_unique(a: PlayerView, b: PlayerView) {
    }

    fn holds(row: &Player, key: &u64) -> (hit: bool) {
        row.spawnable_entity_id == *key
    }
}

/// The unique column `Player::identity`.
pub struct PlayerByIdentity;

impl Column<Player> for PlayerByIdentity {
    type Key = Identity;

    open spec fn key(row: PlayerView) -> Seq<u8> {
        row.identity
    }

    proof fn lemma_declared_unique(a: PlayerView, b: PlayerView) {
    }

    fn holds(row: &Player, key: &Identity) -> (hit: bool) {
        row.identity.same(key)
    }
}

/// One line of chat, as it was said in a room.
#[derive(Debug, PartialEq, Eq)]
pub struct RoomChat {
    pub chat_entity_id: u64,
    pub room_id: String,
    pub source_spawnable_entity_id: u64,
    pub chat_text: String,
    /// When it was said, in microseconds since the Unix epoch.
    pub timestamp: u64,
}

/// The mathematical view of a line of chat.
pub struct RoomChatView {
    pub chat_entity_id: u64,
    pub room_id: Seq<char>,
    pub source_spawnable_entity_id: u64,
    pub chat_text: Seq<char>,
    pub timestamp: u64,
}

impl View for RoomChat {
    type V = RoomChatView;

    open spec fn view(&self) -> RoomChatView {
        RoomChatView {
            chat_entity_id: self.chat_entity_id,
            room_id: self.room_id@,
            source_spawnable_entity_id: self.source_spawnable_entity_id,
            chat_text: self.chat_text@,
            timestamp: self.timestamp,
        }
    }
}

impl Clone for RoomChat {
    fn clone(&self) -> (copy: Self)
        ensures
            copy@ == self@,
    {
        self.replica()
    }
}

impl Row for RoomChat {
    open spec fn collides(a: RoomChatView, b: RoomChatView) -> bool {
        a.chat_entity_id == b.chat_entity_id
    }

    open spec fn auto_value(row: RoomChatView) -> Option<u64> {
        Some(row.chat_entity_id)
    }

    open spec fn with_auto_value(row: RoomChatView, value: u64) -> RoomChatView {
        RoomChatView { chat_entity_id: value, ..row }
    }

    proof fn lemma_collides_symmetric(a: RoomChatView, b: RoomChatView) {
    }

    proof fn lemma_auto_value_assigned(row: RoomChatView, value: u64) {
    }

    fn collides_with(&self, other: &Self) -> (hit: bool) {
        self.chat_entity_id == other.chat_entity_id
    }

    fn auto_column(&self) -> (value: Option<u64>) {
        Some(self.chat_entity_id)
    }

    fn set_auto_column(&mut self, value: u64) {
        self.chat_entity_id = value;
    }

    fn replica(&self) -> (copy: Self) {
        RoomChat {
            chat_entity_id: self.chat_entity_id,
            room_id: self.room_id.clone(),
            source_spawnable_entity_id: self.source_spawnable_entity_id,
            chat_text: self.chat_text.clone(),
            timestamp: self.timestamp,
        }
    }
}

/// The unique column `RoomChat::chat_entity_id`.
pub struct RoomChatById;

impl Column<RoomChat> for RoomChatById {
    type Key = u64;

    open spec fn key(row: RoomChatView) -> u64 {
        row.chat_entity_id
    }

    proof fn lemma_declared_unique(a: RoomChatView, b: RoomChatView) {
    }

    fn holds(row: &RoomChat, key: &u64) -> (hit: bool) {
        row.chat_entity_id == *key
    }
}

} // verus!
