//! Core of an authoritative tick server and its client netcode: framing of
//! the wire protocol, client ids, snapshot history, the entity world, the
//! binary map loader, and the server's and client's session state machines.
//!
//! Alongside the core sit in-memory platform services (friends, lobbies,
//! parties, chat, cloud saves, entitlements, authentication tickets, voice,
//! rich presence, leaderboards, server browsing, workshop state).

// The engine core.
pub mod bsp;
pub mod client_core;
pub mod config;
pub mod console;
pub mod ecs;
pub mod entity_text;
pub mod event;
pub mod resources;
pub mod server_core;
pub mod snapshot;
pub mod wire;

// Platform services.
pub mod auth;
pub mod avatar;
pub mod chat;
pub mod cloud;
pub mod dlc;
pub mod gsi;
pub mod leaderboard;
pub mod lobby;
pub mod matchmaking;
pub mod party;
pub mod rich_presence;
pub mod social;
pub mod steam_id;
pub mod voice;
pub mod test_report;
pub mod workshop;

// Shared helpers.
pub mod bytes_util;
pub mod clock;
pub mod keyed;
pub mod text;
