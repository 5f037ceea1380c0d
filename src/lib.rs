//! Onboarding, ownership and permission logic of a server directory bot.
pub mod capability;
pub mod config;
pub mod directory;
pub mod invite;
pub mod leaderboard;
pub mod listing;
pub mod media;
pub mod onboarding;
pub mod permissions;
pub mod rpc;
pub mod tasks;
pub mod text;
pub mod workflow;
