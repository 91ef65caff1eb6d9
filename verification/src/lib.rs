pub mod auth;
pub mod bind;
pub mod body;
pub mod callback;
pub mod client;
pub mod config;
pub mod game;
pub mod games;
pub mod player;
pub mod prm;
pub mod protocol;
pub mod server;
pub mod stats;
pub mod uptime;
pub mod utils;
pub mod vanject;
pub mod world;
