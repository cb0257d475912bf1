//! First-boot account and system-name setup for Fluff Linux: the rules that
//! decide what is accepted, what is derived and what is recorded.

pub mod text;
pub mod hostname;
pub mod account;
pub mod number;
pub mod progress;
pub mod transliterate;
pub mod username;
pub mod login_config;
pub mod details;
pub mod commands;
pub mod cleanup;
pub mod backend;
