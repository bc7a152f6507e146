//! Mod acquisition and import engine for a single-game mod manager.

pub mod config;
pub mod downloads;
pub mod error;
pub mod firstlaunch;
pub mod gamebanana;
pub mod listing;
pub mod modpacks;
pub mod namemap;
pub mod oneclick;
pub mod seqs;
pub mod state;
pub mod text;
pub mod thumbnail;
