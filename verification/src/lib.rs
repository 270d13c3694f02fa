pub mod codec;
pub mod crypto;
pub mod db;
pub mod error;
pub mod laws;
pub mod lemmas;
pub mod model;
pub mod parse;
pub mod rooms;
pub mod session;
pub mod steps;
pub mod text;
