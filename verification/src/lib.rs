//! A small transactional entity store with declarative key constraints,
//! and the reducers of a multiplayer text-adventure world that run on it.

pub mod consistency;
pub mod context;
pub mod engine;
pub mod errors;
pub mod graph;
pub mod identity;
pub mod laws;
pub mod players;
pub mod scheduler;
pub mod store;
pub mod tables;
pub mod world;

pub use crate::graph::{create_connection, create_room, create_world, create_zone, go};
pub use crate::players::{create_player, initialize, say, sign_in, sign_out};
pub use crate::scheduler::{connect, disconnect};
