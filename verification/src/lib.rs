//! Decoder for the line-oriented `key=value` status text that a wireless
//! control-interface daemon sends over its socket.
//!
//! The text is decoded in three steps, each with a machine-checked contract:
//! escaped values are unescaped ([`config::unprintf`]), lines are gathered
//! into entries and a flat map ([`config::to_map`]), and entries are bound to
//! the fields of a typed record ([`ap::Status`], [`ap::Config`]).

pub mod ap;
pub mod config;
pub mod error;
pub mod escape;
pub mod number;
pub mod record;
pub mod text;
