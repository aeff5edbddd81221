//! Two-player room coordination for a turn-based board game: the game rules,
//! rooms, the registry that owns every room, and the per-connection session
//! logic, all verified.
pub mod game;
pub mod room;
pub mod notice;
pub mod registry;
pub mod session;
pub mod user;
