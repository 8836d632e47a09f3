//! The client's view of the game: what each kind of server packet does to it.

pub mod collision;
pub mod configuration;
pub mod control;
pub mod coverage;
pub mod entity;
pub mod event;
pub mod fingerprint;
pub mod geometry;
pub mod gui;
pub mod handshake;
pub mod hud;
pub mod inventory;
pub mod item;
pub mod json;
pub mod login;
pub mod motion;
pub mod nbt;
pub mod nbt_text;
pub mod nbt_wire;
pub mod palette;
pub mod play;
pub mod player;
pub mod players;
pub mod presentation;
pub mod resource_pack;
pub mod scoreboard;
pub mod settings;
pub mod shapes;
pub mod shared_world;
pub mod snapshot;
pub mod text;
pub mod text_json;
pub mod text_nbt;
pub mod world;
