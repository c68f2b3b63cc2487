//! Verified building blocks of a Counter-Strike 2 demo file parser.
pub mod error;
pub mod read_bytes;
pub mod demo_cmd;
pub mod frameparser;
pub mod path_ops;
pub mod collect_data;
pub mod decoder;
pub mod prop_controller;
pub mod sendtables;
pub mod strings;
pub mod parser_settings;
pub mod entities;
pub mod game_events;
pub mod parse_demo;
pub mod read_bits;
pub mod huffman;
pub mod voice_data;
pub mod variants;
pub mod field_model;
pub mod keyvalues;
pub mod field_types;
pub mod decompress;
pub mod demo_searcher;
