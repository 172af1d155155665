//! A werewolf party game: the cast of players, the night actions of each
//! role, the dealing of role cards, and the narrator's night script.

pub mod types;
pub mod actions;
pub mod util;
pub mod game;
pub mod laws;
pub mod chat;
