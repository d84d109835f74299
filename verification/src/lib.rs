pub mod text;
pub mod captcha;
pub mod json;
pub mod order;
pub mod machines;
pub mod flags;
pub mod writeups;
pub mod leaderboard;
pub mod i18n;
pub mod tui;
pub mod session;
pub mod download;
pub mod config;
pub mod commands;
