pub mod board;
pub mod broadcast;
pub mod game;
pub mod params;
pub mod server;
pub mod text;
