//! A client library for Things Cloud: wire-format values, history replay,
//! the derived task store, and the decisions behind each command.

pub mod wire;
pub mod text;
pub mod keymap;
pub mod json;
pub mod replay;
pub mod sorting;
pub mod props;
pub mod store;
pub mod things;
pub mod prefixes;
pub mod query;
pub mod lookup;
pub mod common;
pub mod listing;
pub mod widgets;
pub mod views;
pub mod spans;
pub mod patch;
pub mod cloud_writer;
pub mod commands;
pub mod ids;
