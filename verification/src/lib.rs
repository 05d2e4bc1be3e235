//! Launcher logic for Minecraft Java Edition: accounts, instances, JVM flags,
//! version metadata, mod lists and the text rules that build launch commands.

pub mod auth;
pub mod java;
pub mod json;
pub mod minecraft;
pub mod mods;
pub mod seqs;
pub mod text;
pub mod utils;
