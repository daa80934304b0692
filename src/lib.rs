pub mod game;
pub mod laws;
pub mod net;
pub mod player;
pub mod protocol;
pub mod structs;
pub mod utils;
