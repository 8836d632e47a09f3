//! What the library promises across its operations, stated over their inputs and
//! results alone.

pub mod blocks;
pub mod chunk_bytes;
pub mod collisions;
pub mod control;
pub mod coverage;
pub mod dispatch;
pub mod dumps;
pub mod entities;
pub mod equality;
pub mod events;
pub mod floats;
pub mod hud;
pub mod inventories;
pub mod joining;
pub mod json_texts;
pub mod looks;
pub mod maps;
pub mod motion;
pub mod nbt_texts;
pub mod network;
pub mod packets;
pub mod packing;
pub mod play;
pub mod players;
pub mod presentation;
pub mod reports;
pub mod scoreboard;
pub mod shared_chunks;
pub mod tags;
pub mod texts;
pub mod transactions;
pub mod views;
pub mod windows;
pub mod wire;
pub mod world;
pub mod writing;
