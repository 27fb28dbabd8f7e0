//! Reads the host table out of an SSH client configuration, renders its hosts
//! for a listing or a selection, and picks the chosen one.
//!
//! `config` holds the parser and its model, `laws` what holds of it over all
//! inputs, `present` the rendering and selection, `locate` the path rule, and
//! `text` the character-level pieces they share.
pub mod text;
pub mod config;
pub mod present;
pub mod locate;
pub mod laws;
