//! Verified core of a terminal space-combat simulator: the mission-file
//! tokenizer and reader, mission events, number parsing, score and save
//! tables, the braille canvas, radar geometry, texture and model decoding,
//! the message console and menu navigation.

pub mod text;
pub mod numbers;
pub mod parser;
pub mod vocab;
pub mod block;
pub mod consts;
pub mod loader;
pub mod canvas;
pub mod clock;
pub mod scores;
pub mod saves;
pub mod config;
pub mod input;
pub mod radar;
pub mod menu;
pub mod texture;
pub mod events;
pub mod laws;
pub mod keywords;
pub mod console;
pub mod mesh;
pub mod flow;
