//! A chat bot's core: word sampling from a corpus, dictionary lookups,
//! dice rolls, command parsing and per-user nicknames.
mod chance;
pub mod command;
pub mod corpus;
pub mod dice;
pub mod error;
pub mod nickname;
pub mod text;
pub mod words;
