//! Presentation and replay logic of the CDDA client: session logs and their
//! byte format, replay stepping, gameplay-state digests, the tile registry,
//! and the list, filter and navigation models behind the menu screens.

// Shared vocabulary and helpers.
pub mod actions;
pub mod text;
pub mod order;
pub mod json;

// Recording and replay.
pub mod session_log;
pub mod replay;
pub mod state_hash;
pub mod plugins;

// Tiles.
pub mod tiles;

// Screens.
pub mod theme;
pub mod screens;
pub mod crafting;
pub mod craft_build;
pub mod craft_view;
pub mod registry;
pub mod dev_spawn;
pub mod settings;
pub mod character;
pub mod inventory;
pub mod overmap;
